//! Human-readable messages for error tokens, looked up in a string table.
use vstd::prelude::*;

verus! {

/// What a TOML document holds when it is a flat table of string values: its
/// entries in ascending key order; `None` when the text is not such a document.
pub uninterp spec fn toml_string_table(text: Seq<char>) -> Option<Seq<(Seq<char>, Seq<char>)>>;

/// The text of each entry.
pub open spec fn entries_view(v: Seq<(String, String)>) -> Seq<(Seq<char>, Seq<char>)> {
    v.map_values(|p: (String, String)| (p.0@, p.1@))
}

/// The value of the first entry whose key is `key`.
pub open spec fn lookup(entries: Seq<(Seq<char>, Seq<char>)>, key: Seq<char>) -> Option<Seq<char>>
    decreases entries.len(),
{
    if entries.len() == 0 {
        None
    } else if entries[0].0 == key {
        Some(entries[0].1)
    } else {
        lookup(entries.drop_first(), key)
    }
}

/// Relies on `toml::from_str` into a `BTreeMap<String, String>`: it reads a
/// flat table of strings, or fails; a `BTreeMap` hands its entries out in
/// ascending key order.
#[verifier::external_body]
fn parse_table(text: &str) -> (r: Option<Vec<(String, String)>>)
    ensures
        r is Some <==> toml_string_table(text@) is Some,
        r is Some ==> entries_view(r->Some_0@) == toml_string_table(text@)->Some_0,
{
    toml::from_str::<std::collections::BTreeMap<String, String>>(text).ok().map(
        |m| m.into_iter().collect(),
    )
}

/// A table from error tokens to messages.
pub struct Message {
    entries: Vec<(String, String)>,
}

impl View for Message {
    type V = Seq<(Seq<char>, Seq<char>)>;

    closed spec fn view(&self) -> Seq<(Seq<char>, Seq<char>)> {
        entries_view(self.entries@)
    }
}

impl Message {
    /// A table read from TOML text of the form `TOKEN = "message"`; `None`
    /// when the text is not such a table.
    pub fn new(table: &str) -> (r: Option<Message>)
        ensures
            r is Some <==> toml_string_table(table@) is Some,
            r is Some ==> r->Some_0@ == toml_string_table(table@)->Some_0,
    {
        match parse_table(table) {
            Some(entries) => Some(Message { entries }),
            None => None,
        }
    }

    /// A table of the given (token, message) pairs.
    pub fn from_entries(entries: Vec<(String, String)>) -> (r: Message)
        ensures
            r@ == entries_view(entries@),
    {
        Message { entries }
    }

    /// The message for `error`, or `error` itself where the table has none.
    pub fn err(&self, error: &str) -> (r: String)
        ensures
            r@ == (match lookup(self@, error@) {
                Some(m) => m,
                None => error@,
            }),
    {
        let key = error.to_owned();
        let mut i: usize = 0;
        assert(self@.subrange(0, self@.len() as int) =~= self@);
        while i < self.entries.len()
            invariant
                i <= self.entries@.len(),
                key@ == error@,
                lookup(self@, error@) == lookup(self@.subrange(i as int, self@.len() as int), error@),
            decreases self.entries@.len() - i,
        {
            let ghost rest = self@.subrange(i as int, self@.len() as int);
            assert(rest.drop_first() =~= self@.subrange(i + 1, self@.len() as int));
            if self.entries[i].0 == key {
                return self.entries[i].1.clone();
            }
            i = i + 1;
        }
        assert(self@.subrange(i as int, self@.len() as int).len() == 0);
        key
    }
}

} // verus!
