//! The ephemeral state store: short-lived records under opaque keys.
//!
//! Refresh tokens, pending registrations and authorization codes live here.
//! A record is either one value or a set of named fields that is written as a
//! whole, and every record carries the second at which it stops being
//! visible. The flows never touch a store themselves: they return
//! [`StoreCommand`]s, and whoever owns the store carries them out.
//! [`EphemeralStore`] is the store kept in memory.

use crate::data::error::Error;
use crate::utils::clock::{expires_at, expiry};
use crate::utils::text::{decimal, join, numeral};
use vstd::prelude::*;

verus! {

/// How long a refresh token can be redeemed: ninety days.
pub const REFRESH_TTL: u64 = 3 * 30 * 24 * 60 * 60;

/// How long a pending registration waits for its link to be opened: a day.
pub const EMAIL_VERIFY_TTL: u64 = 24 * 60 * 60;

/// How long an authorization code can be exchanged: five minutes.
pub const OAUTH_CODE_TTL: u64 = 5 * 60;

/// What a record holds, as mathematics.
pub enum Payload {
    Value(Seq<char>),
    Fields(Seq<(Seq<char>, Seq<char>)>),
}

/// A record with the second from which it is no longer visible.
pub struct Stored {
    pub payload: Payload,
    pub expires_at: u64,
}

/// A write to the store, as mathematics.
pub enum Write {
    SetWithTtl { key: Seq<char>, value: Seq<char>, ttl: u64 },
    PutFields { key: Seq<char>, fields: Seq<(Seq<char>, Seq<char>)>, ttl: u64 },
    Delete { key: Seq<char> },
}

/// What a record holds.
#[derive(Debug)]
pub enum Record {
    Value(String),
    Fields(Vec<(String, String)>),
}

impl DeepView for Record {
    type V = Payload;

    open spec fn deep_view(&self) -> Payload {
        match self {
            Record::Value(value) => Payload::Value(value@),
            Record::Fields(fields) => Payload::Fields(fields.deep_view()),
        }
    }
}

/// A write that a flow asks of the store.
#[derive(Debug)]
pub enum StoreCommand {
    /// Put a single value under `key`, visible for `ttl` seconds.
    SetWithTtl { key: String, value: String, ttl: u64 },
    /// Put all of `fields` under `key` at once, visible for `ttl` seconds.
    PutFields { key: String, fields: Vec<(String, String)>, ttl: u64 },
    /// Remove whatever is under `key`.
    Delete { key: String },
}

impl DeepView for StoreCommand {
    type V = Write;

    open spec fn deep_view(&self) -> Write {
        match self {
            StoreCommand::SetWithTtl { key, value, ttl } => Write::SetWithTtl {
                key: key@,
                value: value@,
                ttl: *ttl,
            },
            StoreCommand::PutFields { key, fields, ttl } => Write::PutFields {
                key: key@,
                fields: fields.deep_view(),
                ttl: *ttl,
            },
            StoreCommand::Delete { key } => Write::Delete { key: key@ },
        }
    }
}

/// The records after one write made at second `now`. A write replaces what
/// was under the key: fields are never merged with older ones. A record
/// without fields is no record, so writing no fields removes what was there.
pub open spec fn apply(records: Map<Seq<char>, Stored>, write: Write, now: u64) -> Map<
    Seq<char>,
    Stored,
> {
    match write {
        Write::SetWithTtl { key, value, ttl } => records.insert(
            key,
            Stored { payload: Payload::Value(value), expires_at: expiry(now, ttl) },
        ),
        Write::PutFields { key, fields, ttl } => if fields.len() == 0 {
            records.remove(key)
        } else {
            records.insert(
                key,
                Stored { payload: Payload::Fields(fields), expires_at: expiry(now, ttl) },
            )
        },
        Write::Delete { key } => records.remove(key),
    }
}

/// The records after a list of writes, made in order at second `now`.
pub open spec fn apply_all(records: Map<Seq<char>, Stored>, writes: Seq<Write>, now: u64) -> Map<
    Seq<char>,
    Stored,
>
    decreases writes.len(),
{
    if writes.len() == 0 {
        records
    } else {
        apply_all(apply(records, writes[0], now), writes.drop_first(), now)
    }
}

/// What is visible under `key` at second `now`: a record that is there and
/// has not yet reached its expiry.
pub open spec fn live(records: Map<Seq<char>, Stored>, key: Seq<char>, now: u64) -> Option<
    Payload,
> {
    if records.dom().contains(key) && now < records[key].expires_at {
        Some(records[key].payload)
    } else {
        None
    }
}

/// The single value visible under `key` at second `now`.
pub open spec fn value_at(records: Map<Seq<char>, Stored>, key: Seq<char>, now: u64) -> Option<
    Seq<char>,
> {
    match live(records, key, now) {
        Some(Payload::Value(value)) => Some(value),
        _ => None,
    }
}

/// The value of the field `name` in a list of fields; where a name is listed
/// twice the later one counts.
pub open spec fn field(fields: Seq<(Seq<char>, Seq<char>)>, name: Seq<char>) -> Option<Seq<char>>
    decreases fields.len(),
{
    if fields.len() == 0 {
        None
    } else if fields.last().0 == name {
        Some(fields.last().1)
    } else {
        field(fields.drop_last(), name)
    }
}

/// The field `name` of the record visible under `key` at second `now`.
pub open spec fn field_at(
    records: Map<Seq<char>, Stored>,
    key: Seq<char>,
    name: Seq<char>,
    now: u64,
) -> Option<Seq<char>> {
    match live(records, key, now) {
        Some(Payload::Fields(fields)) => field(fields, name),
        _ => None,
    }
}

/// The key of the refresh record of a refresh token.
pub open spec fn refresh_key_of(token: Seq<char>) -> Seq<char> {
    "refresh:"@ + token
}

/// The key of the pending registration behind a verification token.
pub open spec fn email_verify_key_of(token: Seq<char>) -> Seq<char> {
    "email_verify:"@ + token
}

/// The key of the record behind an authorization code.
pub open spec fn oauth_key_of(code: Seq<char>) -> Seq<char> {
    "oauth:"@ + code
}

/// The key of the refresh record of a refresh token.
pub fn refresh_key(token: &str) -> (key: String)
    ensures
        key@ == refresh_key_of(token@),
{
    join("refresh:", token)
}

/// The key of the pending registration behind a verification token.
pub fn email_verify_key(token: &str) -> (key: String)
    ensures
        key@ == email_verify_key_of(token@),
{
    join("email_verify:", token)
}

/// The key of the record behind an authorization code.
pub fn oauth_key(code: &str) -> (key: String)
    ensures
        key@ == oauth_key_of(code@),
{
    join("oauth:", code)
}

/// The write that files a refresh token for user `id`.
pub open spec fn refresh_record(token: Seq<char>, id: u32) -> Write {
    Write::SetWithTtl { key: refresh_key_of(token), value: numeral(id as nat), ttl: REFRESH_TTL }
}

/// The command that files a refresh token for user `id`, for ninety days.
pub fn store_refresh_token(token: &str, id: u32) -> (command: StoreCommand)
    ensures
        command.deep_view() == refresh_record(token@, id),
{
    StoreCommand::SetWithTtl { key: refresh_key(token), value: decimal(id), ttl: REFRESH_TTL }
}

/// A copy of a list of fields.
pub fn copy_fields(fields: &Vec<(String, String)>) -> (copy: Vec<(String, String)>)
    ensures
        copy.deep_view() == fields.deep_view(),
{
    let mut copy: Vec<(String, String)> = Vec::new();
    let mut i: usize = 0;
    while i < fields.len()
        invariant
            i <= fields.len(),
            copy.len() == i,
            forall|k: int| 0 <= k < i ==> copy.deep_view()[k] == fields.deep_view()[k],
        decreases fields.len() - i,
    {
        let name = fields[i].0.clone();
        let value = fields[i].1.clone();
        let ghost before = copy.deep_view();
        copy.push((name, value));
        proof {
            assert forall|k: int| 0 <= k < i + 1 implies copy.deep_view()[k]
                == fields.deep_view()[k] by {
                if k < i {
                    assert(copy.deep_view()[k] == before[k]);
                }
            }
        }
        i += 1;
    }
    proof {
        assert(copy.deep_view() =~= fields.deep_view());
    }
    copy
}

/// The value of the field `name` in a list of fields; where a name is listed
/// twice the later one counts.
pub fn find_field(fields: &Vec<(String, String)>, name: &str) -> (value: Option<String>)
    ensures
        value.deep_view() == field(fields.deep_view(), name@),
{
    let wanted = name.to_owned();
    let mut i: usize = fields.len();
    proof {
        assert(fields.deep_view().take(i as int) =~= fields.deep_view());
    }
    while i > 0
        invariant
            i <= fields.len(),
            wanted@ == name@,
            field(fields.deep_view(), name@) == field(fields.deep_view().take(i as int), name@),
        decreases i,
    {
        proof {
            let part = fields.deep_view().take(i as int);
            assert(part.last() == fields.deep_view()[i - 1]);
            assert(fields.deep_view()[i - 1] == (fields@[i - 1].0@, fields@[i - 1].1@));
            assert(part.drop_last() =~= fields.deep_view().take(i - 1));
        }
        i -= 1;
        if fields[i].0 == wanted {
            return Some(fields[i].1.clone());
        }
    }
    None
}

/// The records that have not reached their expiry at second `now`.
pub open spec fn unexpired(records: Map<Seq<char>, Stored>, now: u64) -> Map<Seq<char>, Stored> {
    Map::new(
        |key: Seq<char>| records.dom().contains(key) && now < records[key].expires_at,
        |key: Seq<char>| records[key],
    )
}

/// Forgetting what has expired changes nothing that can be seen from then
/// on.
pub proof fn lemma_unexpired_visible(
    records: Map<Seq<char>, Stored>,
    now: u64,
    key: Seq<char>,
    later: u64,
)
    requires
        now <= later,
    ensures
        live(unexpired(records, now), key, later) == live(records, key, later),
{
}

struct Entry {
    key: String,
    record: Record,
    expires_at: u64,
}

impl Entry {
    spec fn stored(self) -> Stored {
        Stored { payload: self.record.deep_view(), expires_at: self.expires_at }
    }
}

/// No two entries have the same key.
spec fn distinct(entries: Seq<Entry>) -> bool {
    forall|i: int, j: int| 0 <= i < j < entries.len() ==> entries[i].key@ != entries[j].key@
}

/// What the entries hold under `key`.
spec fn lookup(entries: Seq<Entry>, key: Seq<char>) -> Option<Stored>
    decreases entries.len(),
{
    if entries.len() == 0 {
        None
    } else if entries.last().key@ == key {
        Some(entries.last().stored())
    } else {
        lookup(entries.drop_last(), key)
    }
}

/// The entries as a map from key to record.
spec fn records_of(entries: Seq<Entry>) -> Map<Seq<char>, Stored> {
    Map::new(|key: Seq<char>| lookup(entries, key) is Some, |key: Seq<char>| lookup(entries, key)->0)
}

/// Entries of which none has the key hold nothing under it.
proof fn lemma_lookup_absent(entries: Seq<Entry>, key: Seq<char>)
    requires
        forall|i: int| 0 <= i < entries.len() ==> entries[i].key@ != key,
    ensures
        lookup(entries, key) is None,
    decreases entries.len(),
{
    if entries.len() > 0 {
        lemma_lookup_absent(entries.drop_last(), key);
    }
}

/// What is held under a key is what some entry with that key holds.
proof fn lemma_lookup_found(entries: Seq<Entry>, key: Seq<char>)
    requires
        lookup(entries, key) is Some,
    ensures
        exists|i: int|
            0 <= i < entries.len() && entries[i].key@ == key && #[trigger] entries[i].stored()
                == lookup(entries, key)->0,
    decreases entries.len(),
{
    if entries.last().key@ == key {
        assert(entries[entries.len() - 1].stored() == lookup(entries, key)->0);
    } else {
        lemma_lookup_found(entries.drop_last(), key);
        let i = choose|i: int|
            0 <= i < entries.drop_last().len() && entries.drop_last()[i].key@ == key
                && #[trigger] entries.drop_last()[i].stored() == lookup(entries.drop_last(), key)->0;
        assert(entries[i].stored() == lookup(entries, key)->0);
    }
}

/// Among entries with distinct keys, each entry is what is held under its
/// key.
proof fn lemma_lookup_entry(entries: Seq<Entry>, at: int)
    requires
        distinct(entries),
        0 <= at < entries.len(),
    ensures
        lookup(entries, entries[at].key@) == Some(entries[at].stored()),
    decreases entries.len(),
{
    if at < entries.len() - 1 {
        assert(entries[at].key@ != entries.last().key@);
        lemma_lookup_entry(entries.drop_last(), at);
    }
}

/// Taking out an entry leaves what is held under every other key, and keeps
/// the keys distinct.
proof fn lemma_lookup_remove(entries: Seq<Entry>, at: int, key: Seq<char>)
    requires
        0 <= at < entries.len(),
        entries[at].key@ != key,
    ensures
        lookup(entries.remove(at), key) == lookup(entries, key),
    decreases entries.len(),
{
    let shorter = entries.remove(at);
    if at == entries.len() - 1 {
        assert(shorter =~= entries.drop_last());
    } else {
        assert(shorter.last() == entries.last());
        assert(shorter.drop_last() =~= entries.drop_last().remove(at));
        if entries.last().key@ != key {
            lemma_lookup_remove(entries.drop_last(), at, key);
        }
    }
}

/// Taking the entry of a key out of entries with distinct keys leaves nothing
/// under the key, and the keys distinct.
proof fn lemma_remove_distinct(entries: Seq<Entry>, at: int)
    requires
        distinct(entries),
        0 <= at < entries.len(),
    ensures
        distinct(entries.remove(at)),
        lookup(entries.remove(at), entries[at].key@) is None,
{
    let shorter = entries.remove(at);
    assert forall|i: int, j: int| 0 <= i < j < shorter.len() implies shorter[i].key@
        != shorter[j].key@ by {
        let a = if i < at {
            i
        } else {
            i + 1
        };
        let b = if j < at {
            j
        } else {
            j + 1
        };
        assert(shorter[i] == entries[a]);
        assert(shorter[j] == entries[b]);
    }
    assert forall|i: int| 0 <= i < shorter.len() implies shorter[i].key@ != entries[at].key@ by {
        let a = if i < at {
            i
        } else {
            i + 1
        };
        assert(shorter[i] == entries[a]);
        if a < at {
            assert(entries[a].key@ != entries[at].key@);
        } else {
            assert(entries[at].key@ != entries[a].key@);
        }
    }
    lemma_lookup_absent(shorter, entries[at].key@);
}

/// The index of the entry that stands for `key`.
fn position(entries: &Vec<Entry>, key: &String) -> (at: Option<usize>)
    ensures
        match at {
            Some(i) => i < entries.len() && entries[i as int].key@ == key@ && lookup(entries@, key@)
                == Some(entries[i as int].stored()),
            None => lookup(entries@, key@) is None,
        },
{
    let mut i: usize = entries.len();
    proof {
        assert(entries@.take(i as int) =~= entries@);
    }
    while i > 0
        invariant
            i <= entries.len(),
            lookup(entries@, key@) == lookup(entries@.take(i as int), key@),
        decreases i,
    {
        proof {
            let part = entries@.take(i as int);
            assert(part.last() == entries@[i - 1]);
            assert(part.drop_last() =~= entries@.take(i - 1));
        }
        i -= 1;
        if entries[i].key == *key {
            return Some(i);
        }
    }
    None
}

/// Takes the entry of `key` out, if there is one.
fn take_out(entries: &mut Vec<Entry>, key: &String)
    requires
        distinct(old(entries)@),
    ensures
        distinct(final(entries)@),
        records_of(final(entries)@) == records_of(old(entries)@).remove(key@),
{
    match position(entries, key) {
        Some(at) => {
            let ghost before = entries@;
            entries.remove(at);
            proof {
                lemma_remove_distinct(before, at as int);
                assert forall|other: Seq<char>| other != key@ implies lookup(entries@, other)
                    == lookup(before, other) by {
                    lemma_lookup_remove(before, at as int, other);
                }
                assert(records_of(entries@) =~= records_of(before).remove(key@));
            }
        },
        None => {
            proof {
                assert(records_of(entries@) =~= records_of(entries@).remove(key@));
            }
        },
    }
}

/// Takes out every entry that has reached its expiry at second `now`.
fn sweep(entries: &mut Vec<Entry>, now: u64)
    requires
        distinct(old(entries)@),
    ensures
        distinct(final(entries)@),
        records_of(final(entries)@) == unexpired(records_of(old(entries)@), now),
{
    let ghost mut gone: Set<Seq<char>> = Set::empty();
    let mut i: usize = 0;
    while i < entries.len()
        invariant
            i <= entries.len(),
            distinct(entries@),
            forall|k: int| 0 <= k < i ==> now < entries[k].expires_at,
            forall|key: Seq<char>|
                gone.contains(key) ==> lookup(entries@, key) is None && lookup(
                    old(entries)@,
                    key,
                ) is Some && lookup(old(entries)@, key)->0.expires_at <= now,
            forall|key: Seq<char>|
                !gone.contains(key) ==> lookup(entries@, key) == lookup(old(entries)@, key),
        decreases entries.len() - i,
    {
        if entries[i].expires_at <= now {
            let ghost before = entries@;
            let ghost key = entries@[i as int].key@;
            proof {
                lemma_lookup_entry(before, i as int);
                assert(!gone.contains(key));
            }
            entries.remove(i);
            proof {
                lemma_remove_distinct(before, i as int);
                assert forall|other: Seq<char>| other != key implies lookup(entries@, other)
                    == lookup(before, other) by {
                    lemma_lookup_remove(before, i as int, other);
                }
                gone = gone.insert(key);
            }
        } else {
            i += 1;
        }
    }
    proof {
        let swept = records_of(entries@);
        let kept = unexpired(records_of(old(entries)@), now);
        assert forall|key: Seq<char>| swept.dom().contains(key) == kept.dom().contains(key) by {
            let was = records_of(old(entries)@);
            assert(was.dom().contains(key) == (lookup(old(entries)@, key) is Some));
            assert(was.dom().contains(key) ==> was[key] == lookup(old(entries)@, key)->0);
            assert(swept.dom().contains(key) == (lookup(entries@, key) is Some));
            if gone.contains(key) {
                assert(lookup(entries@, key) is None);
                assert(was[key].expires_at <= now);
                assert(!kept.dom().contains(key));
            } else {
                assert(lookup(entries@, key) == lookup(old(entries)@, key));
                if lookup(entries@, key) is Some {
                    lemma_lookup_found(entries@, key);
                    let at = choose|at: int|
                        0 <= at < entries@.len() && entries@[at].key@ == key
                            && #[trigger] entries@[at].stored() == lookup(entries@, key)->0;
                    assert(now < entries@[at].expires_at);
                    assert(now < was[key].expires_at);
                    assert(kept.dom().contains(key));
                } else {
                    assert(!kept.dom().contains(key));
                }
            }
        }
        assert forall|key: Seq<char>| swept.dom().contains(key) implies swept[key]
            == kept[key] by {
            assert(!gone.contains(key));
        }
        assert(swept =~= kept);
    }
}

/// The store kept in memory: a list of entries, one for each key.
pub struct EphemeralStore {
    entries: Vec<Entry>,
}

impl View for EphemeralStore {
    type V = Map<Seq<char>, Stored>;

    closed spec fn view(&self) -> Map<Seq<char>, Stored> {
        records_of(self.entries@)
    }
}

impl EphemeralStore {
    #[verifier::type_invariant]
    spec fn one_entry_a_key(self) -> bool {
        distinct(self.entries@)
    }

    /// A store that holds nothing.
    pub fn new() -> (store: EphemeralStore)
        ensures
            store@ == Map::<Seq<char>, Stored>::empty(),
    {
        let store = EphemeralStore { entries: Vec::new() };
        proof {
            assert(store@ =~= Map::<Seq<char>, Stored>::empty());
        }
        store
    }

    /// Whether a record is visible under `key` at second `now`.
    pub fn contains_key(&self, key: &str, now: u64) -> (yes: bool)
        ensures
            yes == (live(self@, key@, now) is Some),
    {
        let wanted = key.to_owned();
        match position(&self.entries, &wanted) {
            Some(i) => now < self.entries[i].expires_at,
            None => false,
        }
    }

    /// The single value visible under `key` at second `now`. A record of
    /// fields has no single value.
    pub fn get(&self, key: &str, now: u64) -> (value: Option<String>)
        ensures
            value.deep_view() == value_at(self@, key@, now),
    {
        let wanted = key.to_owned();
        match position(&self.entries, &wanted) {
            Some(i) => {
                if now < self.entries[i].expires_at {
                    match &self.entries[i].record {
                        Record::Value(value) => Some(value.clone()),
                        Record::Fields(_) => None,
                    }
                } else {
                    None
                }
            },
            None => None,
        }
    }

    /// The field `name` of the record visible under `key` at second `now`. A
    /// single value has no fields.
    pub fn get_field(&self, key: &str, name: &str, now: u64) -> (value: Option<String>)
        ensures
            value.deep_view() == field_at(self@, key@, name@, now),
    {
        let wanted = key.to_owned();
        match position(&self.entries, &wanted) {
            Some(i) => {
                if now < self.entries[i].expires_at {
                    match &self.entries[i].record {
                        Record::Value(_) => None,
                        Record::Fields(fields) => find_field(fields, name),
                    }
                } else {
                    None
                }
            },
            None => None,
        }
    }

    /// The fields `names` of the record visible under `key` at second `now`,
    /// in the order asked.
    pub fn get_fields(&self, key: &str, names: &Vec<String>, now: u64) -> (values: Vec<
        Option<String>,
    >)
        ensures
            values.len() == names.len(),
            forall|i: int|
                0 <= i < names.len() ==> #[trigger] values.deep_view()[i] == field_at(
                    self@,
                    key@,
                    names[i]@,
                    now,
                ),
    {
        let mut values: Vec<Option<String>> = Vec::new();
        let mut i: usize = 0;
        while i < names.len()
            invariant
                i <= names.len(),
                values.len() == i,
                forall|k: int|
                    0 <= k < i ==> #[trigger] values.deep_view()[k] == field_at(
                        self@,
                        key@,
                        names[k]@,
                        now,
                    ),
            decreases names.len() - i,
        {
            let value = self.get_field(key, names[i].as_str(), now);
            let ghost before = values.deep_view();
            values.push(value);
            proof {
                assert forall|k: int| 0 <= k < i + 1 implies #[trigger] values.deep_view()[k]
                    == field_at(self@, key@, names[k]@, now) by {
                    if k < i {
                        assert(values.deep_view()[k] == before[k]);
                    }
                }
            }
            i += 1;
        }
        values
    }

    /// Removes whatever is under `key`.
    pub fn delete(&mut self, key: &str)
        ensures
            final(self)@ == old(self)@.remove(key@),
    {
        proof {
            use_type_invariant(&*self);
        }
        let wanted = key.to_owned();
        let mut entries: Vec<Entry> = Vec::new();
        std::mem::swap(&mut entries, &mut self.entries);
        take_out(&mut entries, &wanted);
        self.entries = entries;
    }

    /// Forgets every record that has reached its expiry at second `now`. What
    /// is visible at `now` or later stays as it is.
    pub fn purge(&mut self, now: u64)
        ensures
            final(self)@ == unexpired(old(self)@, now),
    {
        proof {
            use_type_invariant(&*self);
        }
        let mut entries: Vec<Entry> = Vec::new();
        std::mem::swap(&mut entries, &mut self.entries);
        sweep(&mut entries, now);
        self.entries = entries;
    }

    /// Puts `record` under `key`, in place of what was there.
    fn put(&mut self, key: &str, record: Record, expires_at: u64)
        ensures
            final(self)@ == old(self)@.insert(
                key@,
                Stored { payload: record.deep_view(), expires_at },
            ),
    {
        proof {
            use_type_invariant(&*self);
        }
        let wanted = key.to_owned();
        let mut entries: Vec<Entry> = Vec::new();
        std::mem::swap(&mut entries, &mut self.entries);
        take_out(&mut entries, &wanted);
        let ghost before = entries@;
        let ghost stored = Stored { payload: record.deep_view(), expires_at };
        entries.push(Entry { key: wanted, record, expires_at });
        proof {
            assert(entries@.drop_last() =~= before);
            assert(entries@.last().stored() == stored);
            assert(records_of(before) == old(self)@.remove(key@));
            assert(!records_of(before).dom().contains(key@));
            assert(lookup(before, key@) is None);
            assert(distinct(entries@)) by {
                assert forall|i: int, j: int| 0 <= i < j < entries@.len() implies entries@[i].key@
                    != entries@[j].key@ by {
                    if j == entries@.len() - 1 {
                        if before[i].key@ == key@ {
                            lemma_lookup_entry(before, i);
                        }
                    } else {
                        assert(entries@[i] == before[i]);
                        assert(entries@[j] == before[j]);
                    }
                }
            }
            let written = records_of(entries@);
            let wanted_map = old(self)@.insert(key@, stored);
            assert forall|other: Seq<char>| #[trigger]
                lookup(entries@, other) == (if other == key@ {
                    Some(stored)
                } else {
                    lookup(before, other)
                }) by {}
            assert forall|other: Seq<char>| written.dom().contains(other)
                == wanted_map.dom().contains(other) by {
                assert(records_of(before).dom().contains(other) == (lookup(before, other)
                    is Some));
            }
            assert forall|other: Seq<char>| written.dom().contains(other) implies written[other]
                == wanted_map[other] by {
                if other != key@ {
                    assert(records_of(before).dom().contains(other));
                    assert(records_of(before)[other] == lookup(before, other)->0);
                }
            }
            assert(written =~= wanted_map);
        }
        self.entries = entries;
    }

    /// Puts a single value under `key`, visible for `ttl` seconds from `now`.
    pub fn set_with_ttl(&mut self, key: &str, value: &str, ttl: u64, now: u64)
        ensures
            final(self)@ == apply(
                old(self)@,
                Write::SetWithTtl { key: key@, value: value@, ttl },
                now,
            ),
    {
        self.put(key, Record::Value(value.to_owned()), expires_at(now, ttl));
    }

    /// Puts all of `fields` under `key` at once, visible for `ttl` seconds
    /// from `now`. A record without fields is no record: putting none removes
    /// what was under the key.
    pub fn put_fields(&mut self, key: &str, fields: &Vec<(String, String)>, ttl: u64, now: u64)
        ensures
            final(self)@ == apply(
                old(self)@,
                Write::PutFields { key: key@, fields: fields.deep_view(), ttl },
                now,
            ),
    {
        if fields.len() == 0 {
            self.delete(key);
        } else {
            self.put(key, Record::Fields(copy_fields(fields)), expires_at(now, ttl));
        }
    }

    /// Carries out one command at second `now`.
    pub fn execute(&mut self, command: &StoreCommand, now: u64)
        ensures
            final(self)@ == apply(old(self)@, command.deep_view(), now),
    {
        match command {
            StoreCommand::SetWithTtl { key, value, ttl } => {
                self.set_with_ttl(key.as_str(), value.as_str(), *ttl, now);
            },
            StoreCommand::PutFields { key, fields, ttl } => {
                self.put_fields(key.as_str(), fields, *ttl, now);
            },
            StoreCommand::Delete { key } => {
                self.delete(key.as_str());
            },
        }
    }

    /// Carries out a list of commands, in order, at second `now`.
    pub fn execute_all(&mut self, commands: &Vec<StoreCommand>, now: u64)
        ensures
            final(self)@ == apply_all(old(self)@, commands.deep_view(), now),
    {
        let mut i: usize = 0;
        proof {
            assert(commands.deep_view().skip(0) =~= commands.deep_view());
        }
        while i < commands.len()
            invariant
                i <= commands.len(),
                apply_all(old(self)@, commands.deep_view(), now) == apply_all(
                    self@,
                    commands.deep_view().skip(i as int),
                    now,
                ),
            decreases commands.len() - i,
        {
            proof {
                let rest = commands.deep_view().skip(i as int);
                assert(rest[0] == commands[i as int].deep_view());
                assert(rest.drop_first() =~= commands.deep_view().skip(i + 1));
            }
            self.execute(&commands[i], now);
            i += 1;
        }
    }
}

/// Filing a refresh token for a user.
pub trait InsertRefreshToken {
    /// Files `token` for user `id` at second `now`, for ninety days.
    fn insert_refresh_token(&mut self, token: &str, id: u32, now: u64) -> Result<(), Error>;
}

impl InsertRefreshToken for EphemeralStore {
    fn insert_refresh_token(&mut self, token: &str, id: u32, now: u64) -> (done: Result<(), Error>)
        ensures
            done is Ok,
            final(self)@ == apply(old(self)@, refresh_record(token@, id), now),
    {
        let command = store_refresh_token(token, id);
        self.execute(&command, now);
        Ok(())
    }
}

} // verus!
