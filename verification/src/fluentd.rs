//! The frames of the Fluentd forward protocol that a broker message carries.

use vstd::prelude::*;

verus! {

/// A pair of time and record, as used in forward mode.
///
/// The record maps field names to byte strings. It is kept as a list of
/// pairs; a well-formed record names no field twice.
#[derive(Debug)]
pub struct Entry {
    pub time: u64,
    pub record: Vec<(String, Vec<u8>)>,
}

/// What an [`Entry`] holds.
pub struct EntryView {
    pub time: u64,
    pub record: Seq<(Seq<char>, Seq<u8>)>,
}

impl View for Entry {
    type V = EntryView;

    open spec fn view(&self) -> EntryView {
        EntryView { time: self.time, record: fields(self.record@) }
    }
}

/// A series of events packed into a single message.
#[derive(Debug)]
pub struct ForwardMode {
    pub tag: String,
    pub entries: Vec<Entry>,
    pub option: Option<Vec<(String, String)>>,
}

/// The fields of a record as plain values.
pub open spec fn fields(record: Seq<(String, Vec<u8>)>) -> Seq<(Seq<char>, Seq<u8>)> {
    record.map_values(|field: (String, Vec<u8>)| (field.0@, field.1@))
}

/// The value of the first field of `record` that is named `key`.
pub open spec fn lookup(record: Seq<(Seq<char>, Seq<u8>)>, key: Seq<char>) -> Option<Seq<u8>>
    decreases record.len(),
{
    if record.len() == 0 {
        None
    } else if record[0].0 == key {
        Some(record[0].1)
    } else {
        lookup(record.drop_first(), key)
    }
}

/// No field name occurs twice in `record`.
pub open spec fn distinct_names(record: Seq<(Seq<char>, Seq<u8>)>) -> bool {
    forall|i: int, j: int|
        0 <= i < j < record.len() ==> (#[trigger] record[i]).0 != (#[trigger] record[j]).0
}

/// The name of the field that carries the payload of an entry.
pub open spec fn message_key() -> Seq<char> {
    "message"@
}

/// The payload of an entry: its `"message"` field, or nothing where the
/// record has no such field.
pub open spec fn payload(entry: EntryView) -> Seq<u8> {
    match lookup(entry.record, message_key()) {
        Some(bytes) => bytes,
        None => Seq::empty(),
    }
}

impl Entry {
    /// The record names no field twice.
    pub open spec fn wf(&self) -> bool {
        distinct_names(self@.record)
    }

    /// Looks a field up by its name.
    pub fn get(&self, key: &String) -> (value: Option<&Vec<u8>>)
        ensures
            match value {
                Some(bytes) => lookup(self@.record, key@) == Some(bytes@),
                None => lookup(self@.record, key@) is None,
            },
    {
        let mut i: usize = 0;
        assert(self@.record.skip(0) == self@.record);
        while i < self.record.len()
            invariant
                i <= self.record.len(),
                lookup(self@.record, key@) == lookup(self@.record.skip(i as int), key@),
            decreases self.record.len() - i,
        {
            let field = &self.record[i];
            proof {
                let rest = self@.record.skip(i as int);
                assert(rest[0] == self@.record[i as int]);
                assert(rest.drop_first() == self@.record.skip(i + 1));
            }
            if field.0 == *key {
                return Some(&field.1);
            }
            i += 1;
        }
        None
    }

    /// The payload: the bytes of the `"message"` field.
    pub fn message(&self) -> (bytes: &[u8])
        ensures
            bytes@ == payload(self@),
    {
        let key = String::from_str("message");
        match self.get(&key) {
            Some(bytes) => bytes.as_slice(),
            None => &[],
        }
    }
}

/// In a record that names no field twice, the field found by [`lookup`] is
/// the only one of that name.
pub proof fn law_named_field_is_unique(record: Seq<(Seq<char>, Seq<u8>)>, key: Seq<char>, i: int)
    requires
        distinct_names(record),
        0 <= i < record.len(),
        record[i].0 == key,
    ensures
        lookup(record, key) == Some(record[i].1),
    decreases record.len(),
{
    if i > 0 {
        let rest = record.drop_first();
        assert(record[0].0 != record[i].0);
        assert forall|a: int, b: int| 0 <= a < b < rest.len() implies (#[trigger] rest[a]).0 != (
        #[trigger] rest[b]).0 by {
            assert(rest[a] == record[a + 1]);
            assert(rest[b] == record[b + 1]);
        }
        law_named_field_is_unique(rest, key, i - 1);
    }
}

} // verus!
