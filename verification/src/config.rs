//! The table of named connections: each entry binds a name to the token of
//! a bot and the id of the user who receives its messages.

use vstd::prelude::*;
use crate::error::ErrorKind;
use crate::text::{
    chars_of, is_white_space, joined_by, lemma_joined_extend, lemma_joined_push, lemma_words_open,
    words,
};

verus! {

/// An entry in the contracts: name, token, user id.
pub type Entry = (Seq<char>, Seq<char>, i64);

/// The entries of a table in the contracts.
pub open spec fn entry_views(entries: Seq<(String, String, i64)>) -> Seq<Entry> {
    Seq::new(entries.len(), |i: int| (entries[i].0@, entries[i].1@, entries[i].2))
}

/// The table that `serde_json::from_str` reads from `content` as a list of
/// triples of two strings and an integer, where it reads one.
pub uninterp spec fn json_entries(content: Seq<char>) -> Option<Seq<(Seq<char>, Seq<char>, i64)>>;

/// The text that `serde_json::to_string` writes for a list of triples of
/// two strings and an integer, where it writes one.
pub uninterp spec fn entries_json(entries: Seq<(Seq<char>, Seq<char>, i64)>) -> Option<Seq<char>>;

/// `serde_json::from_str`, reading a list of triples. It either returns the
/// list named `json_entries` or fails, and which of the two depends on
/// `content` alone.
#[verifier::external_body]
fn entries_from_json(content: &str) -> (parsed: Result<Vec<(String, String, i64)>, serde_json::Error>)
    ensures
        match parsed {
            Ok(entries) => json_entries(content@) == Some(entry_views(entries@)),
            Err(_) => json_entries(content@) is None,
        },
{
    serde_json::from_str(content)
}

/// `serde_json::to_string`, writing a list of triples. It either returns
/// the text named `entries_json` or fails, and which of the two depends on
/// the entries alone.
#[verifier::external_body]
fn entries_to_json(entries: &Vec<(String, String, i64)>) -> (written: Result<String, serde_json::Error>)
    ensures
        match written {
            Ok(text) => entries_json(entry_views(entries@)) == Some(text@),
            Err(_) => entries_json(entry_views(entries@)) is None,
        },
{
    serde_json::to_string(entries)
}

/// Whether an entry of the table bears `name`.
pub open spec fn has_name(entries: Seq<Entry>, name: Seq<char>) -> bool {
    exists|i: int| 0 <= i < entries.len() && entries[i].0 == name
}

/// The index of the first entry that bears `name`, or the length of the
/// table where none does.
pub open spec fn first_named(entries: Seq<Entry>, name: Seq<char>) -> nat
    decreases entries.len(),
{
    if entries.len() == 0 || entries[0].0 == name {
        0
    } else {
        1 + first_named(entries.skip(1), name)
    }
}

/// The names of the entries, in order.
pub open spec fn names(entries: Seq<Entry>) -> Seq<Seq<char>> {
    Seq::new(entries.len(), |i: int| entries[i].0)
}

/// `first_named` points at an entry of that name with none before it, or
/// behind the table where there is none.
pub proof fn lemma_first_named(entries: Seq<Entry>, name: Seq<char>)
    ensures
        first_named(entries, name) <= entries.len(),
        first_named(entries, name) < entries.len() <==> has_name(entries, name),
        first_named(entries, name) < entries.len() ==> entries[first_named(entries, name) as int].0
            == name,
        forall|i: int| 0 <= i < first_named(entries, name) ==> entries[i].0 != name,
    decreases entries.len(),
{
    if entries.len() == 0 || entries[0].0 == name {
    } else {
        let rest = entries.skip(1);
        lemma_first_named(rest, name);
        let k = first_named(rest, name) as int;
        if k < rest.len() {
            assert(entries[k + 1] == rest[k]);
        }
        assert forall|i: int| 0 <= i < k + 1 implies entries[i].0 != name by {
            if i > 0 {
                assert(entries[i] == rest[i - 1]);
            }
        }
        if has_name(entries, name) {
            let i = choose|i: int| 0 <= i < entries.len() && entries[i].0 == name;
            assert(rest[i - 1].0 == name);
        }
    }
}

/// An entry of that name with none before it is the first of that name.
pub proof fn lemma_first_named_is(entries: Seq<Entry>, name: Seq<char>, k: int)
    requires
        0 <= k <= entries.len(),
        k < entries.len() ==> entries[k].0 == name,
        forall|i: int| 0 <= i < k ==> entries[i].0 != name,
    ensures
        first_named(entries, name) == k,
{
    lemma_first_named(entries, name);
    let f = first_named(entries, name) as int;
    if f < k {
        assert(entries[f].0 != name);
    }
}

/// What a lookup gives: the token and the user id of the first entry of
/// that name; or, where no name is given, those of the only entry.
pub open spec fn found(entries: Seq<Entry>, connection: Option<Seq<char>>) -> Option<
    (Seq<char>, i64),
> {
    match connection {
        Some(name) => if has_name(entries, name) {
            let entry = entries[first_named(entries, name) as int];
            Some((entry.1, entry.2))
        } else {
            None
        },
        None => if entries.len() == 1 {
            Some((entries[0].1, entries[0].2))
        } else {
            None
        },
    }
}

/// The table of connections.
#[derive(Debug)]
pub struct Config {
    /// The entries are name, bot token, user id.
    entries: Vec<(String, String, i64)>,
}

impl View for Config {
    type V = Seq<Entry>;

    closed spec fn view(&self) -> Seq<Entry> {
        entry_views(self.entries@)
    }
}

impl Config {
    /// A table of the given entries.
    pub fn from_entries(entries: Vec<(String, String, i64)>) -> (config: Config)
        ensures
            config@ == entry_views(entries@),
    {
        Config { entries }
    }

    /// Reads a table from the content of a file. An empty content is the
    /// empty table; any other content is read as JSON.
    pub fn parse(content: &str) -> (parsed: Result<Config, ErrorKind>)
        ensures
            match parsed {
                Ok(config) => Some(config@) == if content@.len() == 0 {
                    Some(Seq::<Entry>::empty())
                } else {
                    json_entries(content@)
                },
                Err(error) => content@.len() > 0 && json_entries(content@) is None
                    && error is SerdeJson,
            },
    {
        if content.is_empty() {
            let config = Config::from_entries(Vec::new());
            assert(config@ =~= Seq::<Entry>::empty());
            Ok(config)
        } else {
            match entries_from_json(content) {
                Ok(entries) => Ok(Config::from_entries(entries)),
                Err(error) => Err(ErrorKind::SerdeJson(error)),
            }
        }
    }

    /// Writes the table as JSON.
    pub fn to_string(&self) -> (written: Result<String, ErrorKind>)
        ensures
            match written {
                Ok(text) => entries_json(self@) == Some(text@),
                Err(error) => entries_json(self@) is None && error is SerdeJson,
            },
    {
        match entries_to_json(&self.entries) {
            Ok(text) => Ok(text),
            Err(error) => Err(ErrorKind::SerdeJson(error)),
        }
    }

    /// How many entries the table holds.
    pub fn len(&self) -> (count: usize)
        ensures
            count == self@.len(),
    {
        self.entries.len()
    }

    /// The index of the first entry that bears `name`, or the length of
    /// the table.
    fn position(&self, name: &str) -> (index: usize)
        ensures
            index == first_named(self@, name@),
            index <= self.entries@.len(),
    {
        let mut i: usize = 0;
        while i < self.entries.len()
            invariant
                i <= self.entries@.len(),
                forall|j: int| 0 <= j < i ==> self@[j].0 != name@,
            decreases self.entries@.len() - i,
        {
            if self.entries[i].0.as_str().eq(name) {
                proof {
                    lemma_first_named_is(self@, name@, i as int);
                }
                return i;
            }
            i += 1;
        }
        proof {
            lemma_first_named_is(self@, name@, i as int);
        }
        i
    }

    /// Adds an entry at the end of the table, unless an entry bears that
    /// name already.
    pub fn add_entry(&mut self, name: String, token: String, user_id: i64) -> (added: Result<
        (),
        ErrorKind,
    >)
        ensures
            match added {
                Ok(_) => !has_name(old(self)@, name@) && final(self)@ == old(self)@.push(
                    (name@, token@, user_id),
                ),
                Err(error) => has_name(old(self)@, name@) && final(self)@ == old(self)@
                    && error is ConfigEntryExists,
            },
    {
        proof {
            lemma_first_named(self@, name@);
        }
        if self.position(name.as_str()) < self.entries.len() {
            return Err(ErrorKind::ConfigEntryExists);
        }
        self.entries.push((name, token, user_id));
        assert(self@ =~= old(self)@.push((name@, token@, user_id)));
        Ok(())
    }

    /// The token and the user id of a connection: of the first entry that
    /// bears the given name, or, where no name is given, of the only entry
    /// of the table.
    pub fn get(&self, connection: Option<&str>) -> (entry: Result<(String, i64), ErrorKind>)
        ensures
            match entry {
                Ok((token, user_id)) => found(self@, connection_view(connection)) == Some(
                    (token@, user_id),
                ),
                Err(error) => found(self@, connection_view(connection)) is None && error == (
                match connection {
                    Some(_) => ErrorKind::ConfigConnectionNotExist,
                    None => ErrorKind::NoDefaultConnection(self@.len() as usize),
                }),
            },
    {
        match connection {
            Some(con) => {
                proof {
                    lemma_first_named(self@, con@);
                }
                let index = self.position(con);
                if index < self.entries.len() {
                    Ok((self.entries[index].1.clone(), self.entries[index].2))
                } else {
                    Err(ErrorKind::ConfigConnectionNotExist)
                }
            },
            None => {
                if self.entries.len() == 1 {
                    Ok((self.entries[0].1.clone(), self.entries[0].2))
                } else {
                    Err(ErrorKind::NoDefaultConnection(self.entries.len()))
                }
            },
        }
    }

    /// The names of the connections, in the order of the table.
    pub fn list(&self) -> (listed: Vec<String>)
        ensures
            listed@.len() == self@.len(),
            forall|i: int| 0 <= i < listed@.len() ==> listed@[i]@ == self@[i].0,
    {
        let mut listed: Vec<String> = Vec::new();
        let mut i: usize = 0;
        while i < self.entries.len()
            invariant
                i <= self.entries@.len(),
                listed@.len() == i,
                forall|j: int| 0 <= j < i ==> listed@[j]@ == self@[j].0,
            decreases self.entries@.len() - i,
        {
            listed.push(self.entries[i].0.clone());
            i += 1;
        }
        listed
    }

    /// Removes the first entry that bears the name, where there is one.
    pub fn remove(&mut self, to_remove: &str) -> (removed: Result<(), ErrorKind>)
        ensures
            match removed {
                Ok(_) => has_name(old(self)@, to_remove@) && final(self)@ == old(self)@.remove(
                    first_named(old(self)@, to_remove@) as int,
                ),
                Err(error) => !has_name(old(self)@, to_remove@) && final(self)@ == old(self)@
                    && error is ConfigConnectionNotExist,
            },
    {
        proof {
            lemma_first_named(self@, to_remove@);
        }
        let index = self.position(to_remove);
        if index < self.entries.len() {
            self.entries.remove(index);
            assert(self@ =~= old(self)@.remove(index as int));
            Ok(())
        } else {
            Err(ErrorKind::ConfigConnectionNotExist)
        }
    }
}

/// The name under which a connection is kept: the words of what the
/// operator typed, joined by single hyphens, so that it holds no white
/// space.
pub fn connection_name(typed: &str) -> (joined: String)
    ensures
        joined@ == joined_by(words(typed@), '-'),
{
    let chars = chars_of(typed);
    let mut joined = String::new();
    let mut in_word = false;
    let mut any = false;
    let mut i: usize = 0;
    assert(chars@.take(0) =~= Seq::empty());
    while i < chars.len()
        invariant
            i <= chars.len(),
            joined@ == joined_by(words(chars@.take(i as int)), '-'),
            in_word == (i > 0 && !is_white_space(chars@[i - 1])),
            any == (words(chars@.take(i as int)).len() > 0),
        decreases chars.len() - i,
    {
        let c = chars[i];
        let ghost front = chars@.take(i as int);
        let ghost before = words(front);
        proof {
            assert(chars@.take(i + 1).drop_last() =~= front);
            assert(chars@.take(i + 1).last() == c);
            if i > 0 {
                assert(front.last() == chars@[i - 1]);
            }
            if in_word {
                lemma_words_open(front);
                lemma_joined_extend(before, c, '-');
            }
            lemma_joined_push(before, seq![c], '-');
        }
        if c.is_whitespace() {
            in_word = false;
        } else {
            if !in_word && any {
                joined.push('-');
            }
            joined.push(c);
            in_word = true;
            any = true;
            assert(joined@ =~= joined_by(words(chars@.take(i + 1)), '-'));
        }
        i += 1;
    }
    assert(chars@.take(i as int) =~= chars@);
    joined
}

/// A connection name in the contracts, where one is given.
pub open spec fn connection_view(connection: Option<&str>) -> Option<Seq<char>> {
    match connection {
        Some(name) => Some(name@),
        None => None,
    }
}

} // verus!
