//! The values that a command line gave, by argument name.

use crate::error::{ArgError, ErrorView};
use crate::number::{
    i32_value, i64_value, parse_i32, parse_i64, parse_u32, parse_u64, parse_usize, u32_value,
    u64_value, usize_value,
};
use crate::text::chars_of;
use vstd::prelude::*;

verus! {

/// A type whose values can be read from the text of an argument.
pub trait ArgValue: Sized {
    /// Whether `text` is a way of writing a value of this type.
    spec fn accepts(text: Seq<char>) -> bool;

    /// Whether `self` is the value that `text` denotes.
    spec fn written_as(&self, text: Seq<char>) -> bool;

    /// The name of the type, for messages.
    spec fn type_label() -> Seq<char>;

    /// Reads a value from `text`: `None` when `text` does not denote one.
    fn from_text(text: &str) -> (out: Option<Self>)
        ensures
            out is Some <==> Self::accepts(text@),
            out matches Some(value) ==> value.written_as(text@),
    ;

    /// The name of the type, for messages.
    fn type_label_text() -> (name: String)
        ensures
            name@ == Self::type_label(),
    ;
}

impl ArgValue for String {
    open spec fn accepts(text: Seq<char>) -> bool {
        true
    }

    open spec fn written_as(&self, text: Seq<char>) -> bool {
        self@ == text
    }

    open spec fn type_label() -> Seq<char> {
        "String"@
    }

    fn from_text(text: &str) -> (out: Option<String>) {
        Some(text.to_owned())
    }

    fn type_label_text() -> (name: String) {
        "String".to_owned()
    }
}

impl ArgValue for bool {
    open spec fn accepts(text: Seq<char>) -> bool {
        text == "true"@ || text == "false"@
    }

    open spec fn written_as(&self, text: Seq<char>) -> bool {
        text == if *self {
            "true"@
        } else {
            "false"@
        }
    }

    open spec fn type_label() -> Seq<char> {
        "bool"@
    }

    fn from_text(text: &str) -> (out: Option<bool>) {
        let given = text.to_owned();
        if given == "true".to_owned() {
            Some(true)
        } else if given == "false".to_owned() {
            Some(false)
        } else {
            None
        }
    }

    fn type_label_text() -> (name: String) {
        "bool".to_owned()
    }
}

impl ArgValue for i32 {
    open spec fn accepts(text: Seq<char>) -> bool {
        i32_value(text) is Some
    }

    open spec fn written_as(&self, text: Seq<char>) -> bool {
        i32_value(text) == Some(*self)
    }

    open spec fn type_label() -> Seq<char> {
        "i32"@
    }

    fn from_text(text: &str) -> (out: Option<i32>) {
        let chars = chars_of(text);
        parse_i32(&chars)
    }

    fn type_label_text() -> (name: String) {
        "i32".to_owned()
    }
}

impl ArgValue for i64 {
    open spec fn accepts(text: Seq<char>) -> bool {
        i64_value(text) is Some
    }

    open spec fn written_as(&self, text: Seq<char>) -> bool {
        i64_value(text) == Some(*self)
    }

    open spec fn type_label() -> Seq<char> {
        "i64"@
    }

    fn from_text(text: &str) -> (out: Option<i64>) {
        let chars = chars_of(text);
        parse_i64(&chars)
    }

    fn type_label_text() -> (name: String) {
        "i64".to_owned()
    }
}

impl ArgValue for u32 {
    open spec fn accepts(text: Seq<char>) -> bool {
        u32_value(text) is Some
    }

    open spec fn written_as(&self, text: Seq<char>) -> bool {
        u32_value(text) == Some(*self)
    }

    open spec fn type_label() -> Seq<char> {
        "u32"@
    }

    fn from_text(text: &str) -> (out: Option<u32>) {
        let chars = chars_of(text);
        parse_u32(&chars)
    }

    fn type_label_text() -> (name: String) {
        "u32".to_owned()
    }
}

impl ArgValue for u64 {
    open spec fn accepts(text: Seq<char>) -> bool {
        u64_value(text) is Some
    }

    open spec fn written_as(&self, text: Seq<char>) -> bool {
        u64_value(text) == Some(*self)
    }

    open spec fn type_label() -> Seq<char> {
        "u64"@
    }

    fn from_text(text: &str) -> (out: Option<u64>) {
        let chars = chars_of(text);
        parse_u64(&chars)
    }

    fn type_label_text() -> (name: String) {
        "u64".to_owned()
    }
}

impl ArgValue for usize {
    open spec fn accepts(text: Seq<char>) -> bool {
        usize_value(text) is Some
    }

    open spec fn written_as(&self, text: Seq<char>) -> bool {
        usize_value(text) == Some(*self)
    }

    open spec fn type_label() -> Seq<char> {
        "usize"@
    }

    fn from_text(text: &str) -> (out: Option<usize>) {
        let chars = chars_of(text);
        parse_usize(&chars)
    }

    fn type_label_text() -> (name: String) {
        "usize".to_owned()
    }
}

/// What a list of names with their values holds: for each name the value
/// that stands with it last.
pub open spec fn entry_map(entries: Seq<(String, String)>) -> Map<Seq<char>, Seq<char>>
    decreases entries.len(),
{
    if entries.len() == 0 {
        Map::empty()
    } else {
        entry_map(entries.drop_last()).insert(entries.last().0@, entries.last().1@)
    }
}

/// Whether no name stands twice in `entries`.
pub open spec fn distinct_keys(entries: Seq<(String, String)>) -> bool {
    forall|i: int, j: int|
        0 <= i < j < entries.len() ==> (#[trigger] entries[i]).0@ != (#[trigger] entries[j]).0@
}

/// The names of `entry_map` are those of the entries; where no name stands
/// twice, each has the value of its entry, and there are as many names as
/// entries.
proof fn lemma_entry_map(entries: Seq<(String, String)>)
    ensures
        forall|name: Seq<char>| #[trigger]
            entry_map(entries).contains_key(name) <==> exists|i: int|
                0 <= i < entries.len() && (#[trigger] entries[i]).0@ == name,
        distinct_keys(entries) ==> forall|i: int|
            0 <= i < entries.len() ==> entry_map(entries)[(#[trigger] entries[i]).0@]
                == entries[i].1@,
        entry_map(entries).dom().finite(),
        distinct_keys(entries) ==> entry_map(entries).len() == entries.len(),
    decreases entries.len(),
{
    if entries.len() > 0 {
        let front = entries.drop_last();
        lemma_entry_map(front);
        assert forall|name: Seq<char>| #[trigger]
            entry_map(entries).contains_key(name) <==> exists|i: int|
                0 <= i < entries.len() && (#[trigger] entries[i]).0@ == name by {
            if exists|i: int| 0 <= i < entries.len() && (#[trigger] entries[i]).0@ == name {
                let i = choose|i: int| 0 <= i < entries.len() && (#[trigger] entries[i]).0@ == name;
                if i < front.len() {
                    assert(front[i].0@ == name);
                }
            }
        }
        if distinct_keys(entries) {
            assert forall|i: int| 0 <= i < entries.len() implies entry_map(entries)[(
            #[trigger] entries[i]).0@] == entries[i].1@ by {
                if i < front.len() {
                    assert(front[i].0@ == entries[i].0@);
                }
            }
        }
    }
}

/// Putting an entry in the place of one with the same name keeps the
/// names apart, and stores its value under that name.
proof fn lemma_replace(entries: Seq<(String, String)>, index: int, entry: (String, String))
    requires
        distinct_keys(entries),
        0 <= index < entries.len(),
        entries[index].0@ == entry.0@,
    ensures
        distinct_keys(entries.update(index, entry)),
        entry_map(entries.update(index, entry)) == entry_map(entries).insert(entry.0@, entry.1@),
{
    let after = entries.update(index, entry);
    assert(distinct_keys(after));
    lemma_entry_map(entries);
    lemma_entry_map(after);
    assert forall|key: Seq<char>|
        entry_map(after).contains_key(key) <==> entry_map(entries).insert(
            entry.0@,
            entry.1@,
        ).contains_key(key) by {
        if entry_map(entries).contains_key(key) {
            let i = choose|i: int| 0 <= i < entries.len() && (#[trigger] entries[i]).0@ == key;
            assert(after[i].0@ == key);
        }
    }
    assert forall|key: Seq<char>| entry_map(after).contains_key(key) implies entry_map(after)[key]
        == entry_map(entries).insert(entry.0@, entry.1@)[key] by {
        let i = choose|i: int| 0 <= i < after.len() && (#[trigger] after[i]).0@ == key;
    }
}

/// The arguments that were given, each with its value as it was written.
/// A flag that was given has the value `true`.
#[derive(Debug)]
pub struct ArgMap {
    entries: Vec<(String, String)>,
}

impl View for ArgMap {
    type V = Map<Seq<char>, Seq<char>>;

    closed spec fn view(&self) -> Map<Seq<char>, Seq<char>> {
        entry_map(self.entries@)
    }
}

impl ArgMap {
    /// No name is stored twice.
    #[verifier::type_invariant]
    closed spec fn well_formed(&self) -> bool {
        distinct_keys(self.entries@)
    }

    /// Index of the entry that stands under `name`.
    fn position(&self, name: &str) -> (found: Option<usize>)
        ensures
            match found {
                Some(index) => index < self.entries@.len() && self.entries@[index as int].0@
                    == name@,
                None => forall|i: int|
                    0 <= i < self.entries@.len() ==> (#[trigger] self.entries@[i]).0@ != name@,
            },
    {
        let wanted = name.to_owned();
        let mut i: usize = 0;
        while i < self.entries.len()
            invariant
                i <= self.entries@.len(),
                wanted@ == name@,
                forall|k: int| 0 <= k < i ==> (#[trigger] self.entries@[k]).0@ != name@,
            decreases self.entries@.len() - i,
        {
            if self.entries[i].0 == wanted {
                return Some(i);
            }
            i += 1;
        }
        None
    }

    /// A map without values.
    pub(crate) fn new() -> (map: ArgMap)
        ensures
            map@ == Map::<Seq<char>, Seq<char>>::empty(),
    {
        ArgMap { entries: Vec::new() }
    }

    /// The map with `value` stored under `name`, in place of what was
    /// stored there.
    pub(crate) fn with(self, name: String, value: String) -> (out: ArgMap)
        ensures
            out@ == self@.insert(name@, value@),
    {
        proof {
            use_type_invariant(&self);
        }
        let found = self.position(name.as_str());
        let mut entries = self.entries;
        match found {
            Some(index) => {
                proof {
                    lemma_replace(entries@, index as int, (name, value));
                }
                entries.set(index, (name, value));
            },
            None => {
                proof {
                    assert(entries@.push((name, value)).drop_last() =~= entries@);
                }
                entries.push((name, value));
            },
        }
        ArgMap { entries }
    }

    /// The value stored under `name`, read as a `T`.
    ///
    /// Fails with `LookupFailure` when nothing is stored under `name`, and
    /// with `TypeConversionFailure` when the stored text does not denote a `T`.
    pub fn get<T: ArgValue>(&self, name: &str) -> (out: Result<T, ArgError>)
        ensures
            match out {
                Ok(value) => self@.contains_key(name@) && value.written_as(self@[name@]),
                Err(error) => error@ == if self@.contains_key(name@) {
                    ErrorView::TypeConversionFailure {
                        value: self@[name@],
                        target: T::type_label(),
                    }
                } else {
                    ErrorView::LookupFailure(name@)
                },
            },
            out is Ok <==> self@.contains_key(name@) && T::accepts(self@[name@]),
    {
        match self.get_raw(name) {
            Some(text) => match T::from_text(text.as_str()) {
                Some(value) => Ok(value),
                None => Err(
                    ArgError::TypeConversionFailure {
                        value: text.clone(),
                        target: T::type_label_text(),
                    },
                ),
            },
            None => Err(ArgError::LookupFailure(name.to_owned())),
        }
    }

    /// The value stored under `name`, as it was written.
    pub fn get_raw(&self, name: &str) -> (out: Option<&String>)
        ensures
            match out {
                Some(text) => self@.contains_key(name@) && text@ == self@[name@],
                None => !self@.contains_key(name@),
            },
    {
        proof {
            use_type_invariant(self);
            lemma_entry_map(self.entries@);
        }
        match self.position(name) {
            Some(index) => {
                assert(entry_map(self.entries@)[self.entries@[index as int].0@]
                    == self.entries@[index as int].1@);
                Some(&self.entries[index].1)
            },
            None => None,
        }
    }

    /// Whether a value is stored under `name`.
    pub fn has_arg(&self, name: &str) -> (found: bool)
        ensures
            found == self@.contains_key(name@),
    {
        proof {
            lemma_entry_map(self.entries@);
        }
        self.position(name).is_some()
    }

    /// The number of arguments that have a value.
    pub fn len(&self) -> (count: usize)
        ensures
            count == self@.len(),
    {
        proof {
            use_type_invariant(self);
            lemma_entry_map(self.entries@);
        }
        self.entries.len()
    }
}

} // verus!
