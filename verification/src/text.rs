//! Small text utilities shared by the parser and the help renderer.
//!
//! Everything here is stated over `Seq<char>`, the view of `str` and `String`.

use vstd::prelude::*;

verus! {

/// The texts held by a vector of strings, in order.
pub open spec fn texts(items: Seq<String>) -> Seq<Seq<char>> {
    Seq::new(items.len(), |i: int| items[i]@)
}

/// The texts held by a slice of string slices, in order.
pub open spec fn slice_texts(items: Seq<&str>) -> Seq<Seq<char>> {
    Seq::new(items.len(), |i: int| items[i]@)
}

/// Number of `-` characters at the front of `s`.
pub open spec fn dash_run(s: Seq<char>) -> nat
    decreases s.len(),
{
    if s.len() == 0 || s[0] != '-' {
        0
    } else {
        1 + dash_run(s.drop_first())
    }
}

/// `s` without its leading `-` characters.
pub open spec fn without_dashes(s: Seq<char>) -> Seq<char> {
    s.skip(dash_run(s) as int)
}

/// `dash_run` is the only `n` such that the first `n` characters are dashes
/// and the character after them, if any, is not.
proof fn lemma_dash_run_unique(s: Seq<char>, n: int)
    requires
        0 <= n <= s.len(),
        forall|k: int| 0 <= k < n ==> s[k] == '-',
        n == s.len() || s[n] != '-',
    ensures
        dash_run(s) == n,
    decreases s.len(),
{
    if n > 0 {
        lemma_dash_run_unique(s.drop_first(), n - 1);
    }
}

/// The characters of `s`, in order.
pub fn chars_of(s: &str) -> (out: Vec<char>)
    ensures
        out@ == s@,
{
    let mut out: Vec<char> = Vec::new();
    for c in it: s.chars()
        invariant
            out@ == it.seq().take(it.index() as int),
    {
        out.push(c);
    }
    out
}

/// Counts the dashes at the front of `chars`.
pub fn leading_dashes(chars: &Vec<char>) -> (n: usize)
    ensures
        n == dash_run(chars@),
        n <= chars@.len(),
{
    let mut n: usize = 0;
    while n < chars.len() && chars[n] == '-'
        invariant
            n <= chars@.len(),
            forall|k: int| 0 <= k < n ==> chars@[k] == '-',
        decreases chars@.len() - n,
    {
        n += 1;
    }
    proof {
        lemma_dash_run_unique(chars@, n as int);
    }
    n
}

/// Whether the first character of `s` is a dash.
pub fn starts_with_dash(s: &str) -> (b: bool)
    ensures
        b == (s@.len() > 0 && s@[0] == '-'),
{
    match s.chars().next() {
        Some(first) => first == '-',
        None => false,
    }
}

/// `parts` written one after another with `sep` between neighbours.
pub open spec fn joined(parts: Seq<Seq<char>>, sep: Seq<char>) -> Seq<char>
    decreases parts.len(),
{
    if parts.len() == 0 {
        Seq::empty()
    } else if parts.len() == 1 {
        parts[0]
    } else {
        joined(parts.drop_last(), sep) + sep + parts.last()
    }
}

/// Joins the strings of `parts`, placing `sep` between neighbours.
pub fn join(parts: &Vec<String>, sep: &str) -> (out: String)
    ensures
        out@ == joined(texts(parts@), sep@),
{
    let mut out = String::new();
    let mut i: usize = 0;
    while i < parts.len()
        invariant
            i <= parts@.len(),
            out@ == joined(texts(parts@).take(i as int), sep@),
        decreases parts@.len() - i,
    {
        proof {
            assert(texts(parts@).take(i + 1).drop_last() =~= texts(parts@).take(i as int));
        }
        if i > 0 {
            out.append(sep);
        }
        out.append(parts[i].as_str());
        i += 1;
    }
    proof {
        assert(texts(parts@).take(i as int) =~= texts(parts@));
    }
    out
}

/// `count` spaces.
pub open spec fn spaces(count: int) -> Seq<char> {
    Seq::new(
        if count > 0 {
            count as nat
        } else {
            0
        },
        |i: int| ' ',
    )
}

/// `s` followed by as many spaces as it takes to reach `width` characters;
/// `s` itself when it is already that long.
pub open spec fn padded(s: Seq<char>, width: int) -> Seq<char> {
    s + spaces(width - s.len())
}

/// Pads `s` on the right with spaces up to `width` characters.
pub fn pad_right(s: String, width: u128) -> (out: String)
    ensures
        out@ == padded(s@, width as int),
{
    let mut out = s;
    let mut have: u128 = out.as_str().unicode_len() as u128;
    let ghost start = out@;
    while have < width
        invariant
            start == s@,
            have >= start.len(),
            have == start.len() || have <= width,
            out@ == start + spaces(have - start.len()),
        decreases width - have,
    {
        proof {
            reveal_strlit(" ");
            assert((start + spaces(have - start.len())) + " "@ =~= start + (spaces(
                have - start.len(),
            ) + " "@));
        }
        out.append(" ");
        have += 1;
    }
    out
}

/// Whether `c` separates the components of a path.
pub open spec fn is_separator(c: char) -> bool {
    c == '/' || c == '\\'
}

/// Index at which the last component of `path` begins: one past the last
/// separator, or 0 when there is none.
pub open spec fn last_component_start(path: Seq<char>) -> int
    decreases path.len(),
{
    if path.len() == 0 {
        0
    } else if is_separator(path.last()) {
        path.len() as int
    } else {
        last_component_start(path.drop_last())
    }
}

/// What follows the last `/` or `\` of `path`; all of `path` when it has neither.
pub open spec fn last_component(path: Seq<char>) -> Seq<char> {
    path.skip(last_component_start(path))
}

/// Any index that follows a separator, with no separator from there on, is
/// where the last component starts.
proof fn lemma_last_component_unique(path: Seq<char>, start: int)
    requires
        0 <= start <= path.len(),
        start > 0 ==> is_separator(path[start - 1]),
        forall|k: int| start <= k < path.len() ==> !is_separator(#[trigger] path[k]),
    ensures
        last_component_start(path) == start,
    decreases path.len(),
{
    if path.len() > 0 && !is_separator(path.last()) {
        lemma_last_component_unique(path.drop_last(), start);
    }
}

/// The file name at the end of `path`, as a program would show its own name.
pub fn base_name(path: &str) -> (out: String)
    ensures
        out@ == last_component(path@),
{
    let chars = chars_of(path);
    let mut start: usize = 0;
    let mut i: usize = 0;
    while i < chars.len()
        invariant
            i <= chars@.len(),
            start <= i,
            start > 0 ==> is_separator(chars@[start - 1]),
            forall|k: int| start <= k < i ==> !is_separator(#[trigger] chars@[k]),
        decreases chars@.len() - i,
    {
        if chars[i] == '/' || chars[i] == '\\' {
            start = i + 1;
        }
        i += 1;
    }
    proof {
        lemma_last_component_unique(chars@, start as int);
    }
    path.substring_char(start, chars.len()).to_owned()
}

/// The upper-case form of a text, as the Unicode case mapping of the
/// standard library gives it.
pub uninterp spec fn uppercase(s: Seq<char>) -> Seq<char>;

/// Calls `str::to_uppercase`. The result is a function of the text alone;
/// nothing else is claimed of it.
#[verifier::external_body]
pub(crate) fn to_upper(s: &str) -> (out: String)
    ensures
        out@ == uppercase(s@),
{
    s.to_uppercase()
}

} // verus!
