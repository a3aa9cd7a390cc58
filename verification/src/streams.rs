//! Stream address tables: quality key -> URL.
use vstd::prelude::*;
use crate::json::{lookup, JsonValue};
use crate::text::{concat, has_prefix, str_equal, str_starts_with};

verus! {

/// A table from keys (quality names, or `flv:`/`hls:`-prefixed quality names) to stream URLs.
/// Each key occurs at most once.
pub struct StreamTable {
    entries: Vec<(String, String)>,
}

impl StreamTable {
    #[verifier::type_invariant]
    spec fn keys_unique(&self) -> bool {
        forall|i: int, j: int|
            0 <= i < j < self.entries@.len() ==> #[trigger] self.entries@[i].0@ != #[trigger] self.entries@[j].0@
    }

    spec fn has_key_at(&self, k: Seq<char>, i: int) -> bool {
        0 <= i < self.entries@.len() && self.entries@[i].0@ == k
    }

    /// The table as a map from key to URL.
    pub closed spec fn view(&self) -> Map<Seq<char>, Seq<char>> {
        Map::new(
            |k: Seq<char>| exists|i: int| self.has_key_at(k, i),
            |k: Seq<char>| self.entries@[choose|i: int| self.has_key_at(k, i)].1@,
        )
    }

    proof fn lemma_entry(&self, i: int)
        requires
            0 <= i < self.entries@.len(),
            self.keys_unique(),
        ensures
            self@.contains_key(self.entries@[i].0@),
            self@[self.entries@[i].0@] == self.entries@[i].1@,
    {
        let k = self.entries@[i].0@;
        assert(self.has_key_at(k, i));
        let j = choose|j: int| self.has_key_at(k, j);
        if j != i {
            if i < j {
                assert(self.entries@[i].0@ != self.entries@[j].0@);
            } else {
                assert(self.entries@[j].0@ != self.entries@[i].0@);
            }
        }
    }

    /// An empty table.
    pub fn new() -> (t: StreamTable)
        ensures
            t@ == Map::<Seq<char>, Seq<char>>::empty(),
    {
        let t = StreamTable { entries: Vec::new() };
        assert(t@ =~= Map::<Seq<char>, Seq<char>>::empty());
        t
    }

    /// The number of entries.
    pub fn len(&self) -> (n: usize)
        ensures
            n == self@.dom().len(),
    {
        proof {
            use_type_invariant(self);
            self.lemma_dom_len();
        }
        self.entries.len()
    }

    proof fn lemma_dom_len(&self)
        requires
            self.keys_unique(),
        ensures
            self@.dom().finite(),
            self@.dom().len() == self.entries@.len(),
    {
        let keys = self.entries@.map_values(|e: (String, String)| e.0@);
        assert forall|i: int, j: int| 0 <= i < j < keys.len() implies keys[i] != keys[j] by {
            assert(self.entries@[i].0@ != self.entries@[j].0@);
        }
        assert(keys.no_duplicates());
        assert(self@.dom() =~= keys.to_set()) by {
            assert forall|k: Seq<char>| self@.dom().contains(k) implies keys.to_set().contains(k) by {
                let i = choose|i: int| self.has_key_at(k, i);
                assert(keys[i] == k);
            }
            assert forall|k: Seq<char>| keys.to_set().contains(k) implies self@.dom().contains(k) by {
                let i = choose|i: int| 0 <= i < keys.len() && keys[i] == k;
                assert(self.has_key_at(k, i));
            }
        }
        keys.unique_seq_to_set();
    }

    /// Whether the table has no entry.
    pub fn is_empty(&self) -> (res: bool)
        ensures
            res == (self@.dom().len() == 0),
            res == (self@ == Map::<Seq<char>, Seq<char>>::empty()),
    {
        proof {
            use_type_invariant(self);
            self.lemma_dom_len();
            if self.entries@.len() > 0 {
                self.lemma_entry(0);
            } else {
                assert(self@ =~= Map::<Seq<char>, Seq<char>>::empty());
            }
        }
        self.entries.len() == 0
    }

    /// The index of the entry with key `k`.
    fn position(&self, k: &str) -> (res: Option<usize>)
        ensures
            match res {
                Some(i) => i < self.entries@.len() && self.entries@[i as int].0@ == k@,
                None => !self@.contains_key(k@),
            },
    {
        let mut i: usize = 0;
        while i < self.entries.len()
            invariant
                i <= self.entries@.len(),
                forall|j: int| 0 <= j < i ==> self.entries@[j].0@ != k@,
            decreases self.entries.len() - i,
        {
            if str_equal(self.entries[i].0.as_str(), k) {
                return Some(i);
            }
            i += 1;
        }
        None
    }

    /// The URL stored under `k`.
    pub fn get(&self, k: &str) -> (res: Option<String>)
        ensures
            match res {
                Some(v) => self@.contains_key(k@) && self@[k@] == v@,
                None => !self@.contains_key(k@),
            },
    {
        proof { use_type_invariant(self); }
        match self.position(k) {
            Some(i) => {
                proof { self.lemma_entry(i as int); }
                Some(self.entries[i].1.clone())
            },
            None => None,
        }
    }

    /// Sets the URL stored under `k` to `v`.
    pub fn insert(&mut self, k: String, v: String)
        ensures
            final(self)@ == old(self)@.insert(k@, v@),
    {
        proof { use_type_invariant(&*self); }
        let ghost old_t = *self;
        match self.position(k.as_str()) {
            Some(i) => {
                let ghost kk = k@;
                let ghost vv = v@;
                let mut entries: Vec<(String, String)> = Vec::new();
                std::mem::swap(&mut entries, &mut self.entries);
                entries.set(i, (k, v));
                assert forall|a: int, b: int| 0 <= a < b < entries@.len() implies
                    #[trigger] entries@[a].0@ != #[trigger] entries@[b].0@ by {
                    assert(old_t.entries@[a].0@ != old_t.entries@[b].0@);
                }
                self.entries = entries;
                proof {
                    let new_t = *self;
                    assert forall|key: Seq<char>|
                        #[trigger] new_t@.contains_key(key) == old_t@.insert(kk, vv).contains_key(key)
                        && (new_t@.contains_key(key) ==> new_t@[key] == old_t@.insert(kk, vv)[key]) by {
                        if new_t@.contains_key(key) {
                            let j = choose|j: int| new_t.has_key_at(key, j);
                            new_t.lemma_entry(j);
                            if j != i {
                                old_t.lemma_entry(j);
                            }
                        }
                        if old_t@.insert(kk, vv).contains_key(key) {
                            if key == kk {
                                assert(new_t.has_key_at(key, i as int));
                            } else {
                                let j = choose|j: int| old_t.has_key_at(key, j);
                                assert(new_t.has_key_at(key, j));
                            }
                        }
                    }
                    assert(new_t@.dom() =~= old_t@.insert(kk, vv).dom());
                    assert(new_t@ =~= old_t@.insert(kk, vv));
                }
            },
            None => {
                let ghost kk = k@;
                let ghost vv = v@;
                let mut entries: Vec<(String, String)> = Vec::new();
                std::mem::swap(&mut entries, &mut self.entries);
                let ghost n = entries@.len();
                entries.push((k, v));
                assert forall|a: int, b: int| 0 <= a < b < entries@.len() implies
                    #[trigger] entries@[a].0@ != #[trigger] entries@[b].0@ by {
                    if b == n {
                        if entries@[a].0@ == kk {
                            old_t.lemma_entry(a);
                        }
                    } else {
                        assert(old_t.entries@[a].0@ != old_t.entries@[b].0@);
                    }
                }
                self.entries = entries;
                proof {
                    let new_t = *self;
                    assert forall|key: Seq<char>|
                        #[trigger] new_t@.contains_key(key) == old_t@.insert(kk, vv).contains_key(key)
                        && (new_t@.contains_key(key) ==> new_t@[key] == old_t@.insert(kk, vv)[key]) by {
                        if new_t@.contains_key(key) {
                            let j = choose|j: int| new_t.has_key_at(key, j);
                            new_t.lemma_entry(j);
                            if j != n {
                                old_t.lemma_entry(j);
                            }
                        }
                        if old_t@.insert(kk, vv).contains_key(key) {
                            if key == kk {
                                assert(new_t.has_key_at(key, n as int));
                            } else {
                                let j = choose|j: int| old_t.has_key_at(key, j);
                                assert(new_t.has_key_at(key, j));
                            }
                        }
                    }
                    assert(new_t@.dom() =~= old_t@.insert(kk, vv).dom());
                    assert(new_t@ =~= old_t@.insert(kk, vv));
                }
            },
        }
    }

    /// The entries, in insertion order.
    pub fn pairs(&self) -> (res: Vec<(String, String)>)
        ensures
            forall|k: Seq<char>| #![auto] self@.contains_key(k) <==>
                exists|i: int| 0 <= i < res@.len() && res@[i].0@ == k,
            forall|i: int| #![auto] 0 <= i < res@.len() ==>
                self@.contains_key(res@[i].0@) && self@[res@[i].0@] == res@[i].1@,
            res@.len() == self@.dom().len(),
    {
        proof {
            use_type_invariant(self);
            self.lemma_dom_len();
            assert forall|i: int| #![auto] 0 <= i < self.entries@.len() implies
                self@.contains_key(self.entries@[i].0@) && self@[self.entries@[i].0@] == self.entries@[i].1@ by {
                self.lemma_entry(i);
            }
            assert forall|k: Seq<char>| #![auto] self@.contains_key(k) implies
                exists|i: int| 0 <= i < self.entries@.len() && self.entries@[i].0@ == k by {
                let i = choose|i: int| self.has_key_at(k, i);
            }
        }
        let mut res: Vec<(String, String)> = Vec::new();
        let mut i: usize = 0;
        while i < self.entries.len()
            invariant
                i <= self.entries@.len(),
                res@.len() == i,
                forall|j: int| 0 <= j < i ==> #[trigger] res@[j].0@ == self.entries@[j].0@
                    && res@[j].1@ == self.entries@[j].1@,
            decreases self.entries.len() - i,
        {
            let e = &self.entries[i];
            res.push((e.0.clone(), e.1.clone()));
            i += 1;
        }
        proof {
            assert forall|k: Seq<char>| #![auto] self@.contains_key(k) implies
                exists|i: int| 0 <= i < res@.len() && res@[i].0@ == k by {
                let i = choose|i: int| self.has_key_at(k, i);
                assert(res@[i].0@ == k);
            }
            assert forall|k: Seq<char>| #![auto]
                (exists|i: int| 0 <= i < res@.len() && res@[i].0@ == k) implies self@.contains_key(k) by {
                let i = choose|i: int| 0 <= i < res@.len() && res@[i].0@ == k;
                assert(self.has_key_at(k, i));
            }
            assert forall|i: int| #![auto] 0 <= i < res@.len() implies
                self@.contains_key(res@[i].0@) && self@[res@[i].0@] == res@[i].1@ by {
                self.lemma_entry(i);
            }
        }
        res
    }
}


/// A pair of tables: FLV addresses and HLS addresses.
pub type StreamMaps = (Map<Seq<char>, Seq<char>>, Map<Seq<char>, Seq<char>>);

/// Whether `s` looks like an absolute web address (starts with `http`).
pub open spec fn is_http(s: Seq<char>) -> bool {
    has_prefix(s, "http"@)
}

/// `table` after adding every member of `members` whose value is a string starting with
/// `http`, in member order (a later member with the same name overwrites an earlier one).
pub open spec fn add_http_members(members: Seq<(String, JsonValue)>, table: Map<Seq<char>, Seq<char>>)
    -> Map<Seq<char>, Seq<char>>
    decreases members.len(),
{
    if members.len() == 0 {
        table
    } else {
        let t = add_http_members(members.drop_last(), table);
        match members.last().1 {
            JsonValue::Str(u) => if is_http(u@) {
                t.insert(members.last().0@, u@)
            } else {
                t
            },
            _ => t,
        }
    }
}

/// The FLV table after reading an object's `flv_pull_url` member.
pub open spec fn flv_here(members: Seq<(String, JsonValue)>, flv: Map<Seq<char>, Seq<char>>)
    -> Map<Seq<char>, Seq<char>>
{
    match lookup(members, "flv_pull_url"@) {
        Some(JsonValue::Object(inner)) => add_http_members(inner@, flv),
        Some(JsonValue::Str(u)) => if is_http(u@) {
            flv.insert("default"@, u@)
        } else {
            flv
        },
        _ => flv,
    }
}

/// The HLS table after reading an object's `hls_pull_url_map` and `hls_pull_url` members.
pub open spec fn hls_here(members: Seq<(String, JsonValue)>, hls: Map<Seq<char>, Seq<char>>)
    -> Map<Seq<char>, Seq<char>>
{
    let h1 = match lookup(members, "hls_pull_url_map"@) {
        Some(JsonValue::Object(inner)) => add_http_members(inner@, hls),
        _ => hls,
    };
    match lookup(members, "hls_pull_url"@) {
        Some(JsonValue::Str(u)) => if is_http(u@) {
            h1.insert("default"@, u@)
        } else {
            h1
        },
        _ => h1,
    }
}

/// The stream tables after a depth-first walk of `v`: at each object, its own
/// `flv_pull_url` / `hls_pull_url_map` / `hls_pull_url` members are read first, then every
/// member value is walked in order; array items are walked in order.
pub open spec fn streams_in(v: JsonValue, acc: StreamMaps) -> StreamMaps
    decreases v, 0int,
{
    match v {
        JsonValue::Object(members) => {
            proof {
                assert(decreases_to!(v => members));
                assert(decreases_to!(members => members@));
            }
            streams_in_members(members@, members@.len() as int,
                (flv_here(members@, acc.0), hls_here(members@, acc.1)))
        },
        JsonValue::Array(items) => {
            proof {
                assert(decreases_to!(v => items));
                assert(decreases_to!(items => items@));
            }
            streams_in_items(items@, items@.len() as int, acc)
        },
        _ => acc,
    }
}

/// The walk over the first `n` member values of an object.
pub open spec fn streams_in_members(ms: Seq<(String, JsonValue)>, n: int, acc: StreamMaps) -> StreamMaps
    decreases ms, n,
{
    if n <= 0 || n > ms.len() {
        acc
    } else {
        proof {
            assert(decreases_to!(ms => ms[n - 1]));
            assert(decreases_to!(ms[n - 1] => ms[n - 1].1));
        }
        streams_in(ms[n - 1].1, streams_in_members(ms, n - 1, acc))
    }
}

/// The walk over the first `n` items of an array.
pub open spec fn streams_in_items(items: Seq<JsonValue>, n: int, acc: StreamMaps) -> StreamMaps
    decreases items, n,
{
    if n <= 0 || n > items.len() {
        acc
    } else {
        proof {
            assert(decreases_to!(items => items[n - 1]));
        }
        streams_in(items[n - 1], streams_in_items(items, n - 1, acc))
    }
}


/// Adds to `table` every member of `members` whose value is a string starting with `http`.
fn add_http_members_exec(members: &Vec<(String, JsonValue)>, table: &mut StreamTable)
    ensures
        final(table)@ == add_http_members(members@, old(table)@),
{
    let ghost start = table@;
    let mut i: usize = 0;
    assert(members@.take(0) =~= Seq::<(String, JsonValue)>::empty());
    while i < members.len()
        invariant
            i <= members@.len(),
            table@ == add_http_members(members@.take(i as int), start),
        decreases members.len() - i,
    {
        assert(members@.take(i + 1).drop_last() =~= members@.take(i as int));
        let (key, val) = &members[i];
        match val {
            JsonValue::Str(u) => {
                if str_starts_with(u.as_str(), "http") {
                    table.insert(key.clone(), u.clone());
                }
            },
            _ => {},
        }
        i += 1;
    }
    assert(members@.take(members@.len() as int) =~= members@);
}

/// Walks `data` depth-first and records every FLV / HLS stream address it finds
/// (`flv_pull_url`, `hls_pull_url_map`, `hls_pull_url`) into `flv_out` / `hls_out`.
pub fn recursive_find_streams(data: &JsonValue, flv_out: &mut StreamTable, hls_out: &mut StreamTable)
    ensures
        (final(flv_out)@, final(hls_out)@) == streams_in(*data, (old(flv_out)@, old(hls_out)@)),
    decreases data,
{
    match data {
        JsonValue::Object(members) => {
            match data.get("flv_pull_url") {
                Some(JsonValue::Object(inner)) => add_http_members_exec(inner, flv_out),
                Some(JsonValue::Str(u)) => {
                    if str_starts_with(u.as_str(), "http") {
                        flv_out.insert("default".to_owned(), u.clone());
                    }
                },
                _ => {},
            }
            match data.get("hls_pull_url_map") {
                Some(JsonValue::Object(inner)) => add_http_members_exec(inner, hls_out),
                _ => {},
            }
            match data.get("hls_pull_url") {
                Some(JsonValue::Str(u)) => {
                    if str_starts_with(u.as_str(), "http") {
                        hls_out.insert("default".to_owned(), u.clone());
                    }
                },
                _ => {},
            }
            let ghost acc0: StreamMaps = (flv_out@, hls_out@);
            let mut i: usize = 0;
            while i < members.len()
                invariant
                    *data == JsonValue::Object(*members),
                    i <= members@.len(),
                    (flv_out@, hls_out@) == streams_in_members(members@, i as int, acc0),
                decreases members.len() - i,
            {
                proof {
                    assert(data->Object_0 == *members);
                    assert(decreases_to!(*data => data->Object_0));
                    assert(decreases_to!(*members => members@));
                    assert(decreases_to!(members@ => members@[i as int]));
                    assert(decreases_to!(members@[i as int] => members@[i as int].1));
                }
                recursive_find_streams(&members[i].1, flv_out, hls_out);
                i += 1;
            }
        },
        JsonValue::Array(items) => {
            let ghost acc0: StreamMaps = (flv_out@, hls_out@);
            let mut i: usize = 0;
            while i < items.len()
                invariant
                    *data == JsonValue::Array(*items),
                    i <= items@.len(),
                    (flv_out@, hls_out@) == streams_in_items(items@, i as int, acc0),
                decreases items.len() - i,
            {
                proof {
                    assert(data->Array_0 == *items);
                    assert(decreases_to!(*data => data->Array_0));
                    assert(decreases_to!(*items => items@));
                    assert(decreases_to!(items@ => items@[i as int]));
                }
                recursive_find_streams(&items[i], flv_out, hls_out);
                i += 1;
            }
        },
        _ => {},
    }
}


/// `m` with every key written behind `prefix`.
pub open spec fn with_key_prefix(m: Map<Seq<char>, Seq<char>>, prefix: Seq<char>) -> Map<Seq<char>, Seq<char>> {
    Map::new(
        |k: Seq<char>| has_prefix(k, prefix) && m.contains_key(k.skip(prefix.len() as int)),
        |k: Seq<char>| m[k.skip(prefix.len() as int)],
    )
}

/// One table of both kinds: FLV entries under `flv:<quality>`, HLS entries under `hls:<quality>`.
pub open spec fn merged_streams(flv: Map<Seq<char>, Seq<char>>, hls: Map<Seq<char>, Seq<char>>)
    -> Map<Seq<char>, Seq<char>>
{
    with_key_prefix(flv, "flv:"@).union_prefer_right(with_key_prefix(hls, "hls:"@))
}

proof fn lemma_prefix_skip(p: Seq<char>, k: Seq<char>)
    ensures
        has_prefix(p + k, p),
        (p + k).skip(p.len() as int) == k,
{
    assert((p + k).subrange(0, p.len() as int) =~= p);
    assert((p + k).skip(p.len() as int) =~= k);
}

spec fn key_added(prefix: Seq<char>, pairs: Seq<(String, String)>, n: int, k: Seq<char>) -> bool {
    exists|j: int| 0 <= j < n && k == prefix + #[trigger] pairs[j].0@
}

/// Copies every entry of `src` into `dst` under `prefix` + key.
fn add_prefixed(src: &StreamTable, prefix: &str, dst: &mut StreamTable)
    ensures
        final(dst)@ == old(dst)@.union_prefer_right(with_key_prefix(src@, prefix@)),
{
    let pairs = src.pairs();
    let ghost start = dst@;
    let ghost p = prefix@;
    let mut i: usize = 0;
    while i < pairs.len()
        invariant
            i <= pairs@.len(),
            p == prefix@,
            forall|k: Seq<char>| #![auto] src@.contains_key(k) <==>
                exists|j: int| 0 <= j < pairs@.len() && pairs@[j].0@ == k,
            forall|j: int| #![auto] 0 <= j < pairs@.len() ==>
                src@.contains_key(pairs@[j].0@) && src@[pairs@[j].0@] == pairs@[j].1@,
            forall|k: Seq<char>| #[trigger] dst@.contains_key(k) <==>
                (start.contains_key(k) || key_added(p, pairs@, i as int, k)),
            forall|k: Seq<char>| #[trigger] dst@.contains_key(k) ==>
                dst@[k] == if key_added(p, pairs@, i as int, k) {
                    src@[k.skip(p.len() as int)]
                } else {
                    start[k]
                },
        decreases pairs.len() - i,
    {
        let key = concat(prefix, pairs[i].0.as_str());
        proof { lemma_prefix_skip(p, pairs@[i as int].0@); }
        let ghost before = dst@;
        dst.insert(key, pairs[i].1.clone());
        proof {
            assert forall|k: Seq<char>| key_added(p, pairs@, i + 1, k) <==>
                (key_added(p, pairs@, i as int, k) || k == key@) by {
                if key_added(p, pairs@, i + 1, k) {
                    let j = choose|j: int| 0 <= j < i + 1 && k == p + #[trigger] pairs@[j].0@;
                    if j < i {
                        assert(key_added(p, pairs@, i as int, k));
                    }
                }
                if key_added(p, pairs@, i as int, k) {
                    let j = choose|j: int| 0 <= j < i && k == p + #[trigger] pairs@[j].0@;
                    assert(0 <= j < i + 1 && k == p + pairs@[j].0@);
                }
                if k == key@ {
                    assert(0 <= i < i + 1 && k == p + pairs@[i as int].0@);
                }
            }
            assert forall|k: Seq<char>| key_added(p, pairs@, i + 1, k) implies
                src@.contains_key(k.skip(p.len() as int)) by {
                let j = choose|j: int| 0 <= j < i + 1 && k == p + #[trigger] pairs@[j].0@;
                lemma_prefix_skip(p, pairs@[j].0@);
            }
        }
        i += 1;
    }
    proof {
        let want = start.union_prefer_right(with_key_prefix(src@, p));
        assert forall|k: Seq<char>| #[trigger] dst@.contains_key(k) == want.contains_key(k) by {
            if key_added(p, pairs@, i as int, k) {
                let j = choose|j: int| 0 <= j < i && k == p + #[trigger] pairs@[j].0@;
                lemma_prefix_skip(p, pairs@[j].0@);
                assert(with_key_prefix(src@, p).contains_key(k));
            }
            if has_prefix(k, p) && src@.contains_key(k.skip(p.len() as int)) {
                let j = choose|j: int| 0 <= j < pairs@.len() && pairs@[j].0@ == k.skip(p.len() as int);
                assert(k =~= p + pairs@[j].0@);
                assert(key_added(p, pairs@, i as int, k));
            }
        }
        assert forall|k: Seq<char>| #[trigger] dst@.contains_key(k) implies dst@[k] == want[k] by {
            if key_added(p, pairs@, i as int, k) {
                let j = choose|j: int| 0 <= j < i && k == p + #[trigger] pairs@[j].0@;
                lemma_prefix_skip(p, pairs@[j].0@);
            } else if has_prefix(k, p) && src@.contains_key(k.skip(p.len() as int)) {
                let j = choose|j: int| 0 <= j < pairs@.len() && pairs@[j].0@ == k.skip(p.len() as int);
                assert(k =~= p + pairs@[j].0@);
                assert(key_added(p, pairs@, i as int, k));
            }
        }
        assert(dst@ =~= want);
    }
}

/// Combines the FLV and HLS tables into one table keyed `flv:<quality>` / `hls:<quality>`.
pub fn merge_stream_tables(flv: &StreamTable, hls: &StreamTable) -> (res: StreamTable)
    ensures
        res@ == merged_streams(flv@, hls@),
{
    let mut res = StreamTable::new();
    add_prefixed(flv, "flv:", &mut res);
    add_prefixed(hls, "hls:", &mut res);
    assert(Map::<Seq<char>, Seq<char>>::empty().union_prefer_right(with_key_prefix(flv@, "flv:"@))
        =~= with_key_prefix(flv@, "flv:"@));
    res
}

/// Stream qualities from best to worst.
pub open spec fn quality_order() -> Seq<Seq<char>> {
    seq!["OR4"@, "UHD"@, "HD"@, "SD"@, "LD"@]
}

/// The URL of the best quality in `qs` (in order) that `urls` holds under `prefix` + quality.
pub open spec fn first_quality(urls: Map<Seq<char>, Seq<char>>, prefix: Seq<char>, qs: Seq<Seq<char>>)
    -> Option<Seq<char>>
    decreases qs.len(),
{
    if qs.len() == 0 {
        None
    } else if urls.contains_key(prefix + qs[0]) {
        Some(urls[prefix + qs[0]])
    } else {
        first_quality(urls, prefix, qs.drop_first())
    }
}

/// The contract of picking the best address of one kind (`prefix` is `flv:` or `hls:`):
/// the best listed quality when there is one, otherwise the address of some key with that
/// prefix, otherwise nothing.
pub open spec fn picks_best(urls: Map<Seq<char>, Seq<char>>, prefix: Seq<char>, res: Option<Seq<char>>) -> bool {
    match first_quality(urls, prefix, quality_order()) {
        Some(u) => res == Some(u),
        None => match res {
            Some(u) => exists|k: Seq<char>| #![auto]
                has_prefix(k, prefix) && urls.contains_key(k) && urls[k] == u,
            None => forall|k: Seq<char>| #![auto] urls.contains_key(k) ==> !has_prefix(k, prefix),
        },
    }
}

fn quality_name(i: usize) -> (q: &'static str)
    requires
        i < 5,
    ensures
        q@ == quality_order()[i as int],
{
    if i == 0 { "OR4" } else if i == 1 { "UHD" } else if i == 2 { "HD" } else if i == 3 { "SD" } else { "LD" }
}

fn best_with_prefix(urls: &StreamTable, prefix: &str) -> (res: Option<String>)
    ensures
        picks_best(urls@, prefix@, match res { Some(s) => Some(s@), None => None }),
{
    let mut i: usize = 0;
    assert(quality_order().skip(0) =~= quality_order());
    while i < 5
        invariant
            i <= 5,
            first_quality(urls@, prefix@, quality_order())
                == first_quality(urls@, prefix@, quality_order().skip(i as int)),
        decreases 5 - i,
    {
        let key = concat(prefix, quality_name(i));
        assert(quality_order().skip(i as int)[0] == quality_order()[i as int]);
        if let Some(url) = urls.get(key.as_str()) {
            return Some(url);
        }
        assert(quality_order().skip(i as int).drop_first() =~= quality_order().skip(i + 1));
        i += 1;
    }
    assert(quality_order().skip(5).len() == 0);
    let pairs = urls.pairs();
    let mut j: usize = 0;
    while j < pairs.len()
        invariant
            j <= pairs@.len(),
            first_quality(urls@, prefix@, quality_order()) is None,
            forall|k: Seq<char>| #![auto] urls@.contains_key(k) <==>
                exists|m: int| 0 <= m < pairs@.len() && pairs@[m].0@ == k,
            forall|m: int| #![auto] 0 <= m < pairs@.len() ==>
                urls@.contains_key(pairs@[m].0@) && urls@[pairs@[m].0@] == pairs@[m].1@,
            forall|m: int| #![auto] 0 <= m < j ==> !has_prefix(pairs@[m].0@, prefix@),
        decreases pairs.len() - j,
    {
        if str_starts_with(pairs[j].0.as_str(), prefix) {
            assert(has_prefix(pairs@[j as int].0@, prefix@) && urls@.contains_key(pairs@[j as int].0@));
            return Some(pairs[j].1.clone());
        }
        j += 1;
    }
    assert forall|k: Seq<char>| #![auto] urls@.contains_key(k) implies !has_prefix(k, prefix@) by {
        let m = choose|m: int| 0 <= m < pairs@.len() && pairs@[m].0@ == k;
    }
    None
}

/// The best FLV address: `flv:OR4`, else `flv:UHD`, `flv:HD`, `flv:SD`, `flv:LD`,
/// else any `flv:` entry.
pub fn best_flv(urls: &StreamTable) -> (res: Option<String>)
    ensures
        picks_best(urls@, "flv:"@, match res { Some(s) => Some(s@), None => None }),
{
    best_with_prefix(urls, "flv:")
}

/// The best HLS address, by the same order as `best_flv` over the `hls:` entries.
pub fn best_hls(urls: &StreamTable) -> (res: Option<String>)
    ensures
        picks_best(urls@, "hls:"@, match res { Some(s) => Some(s@), None => None }),
{
    best_with_prefix(urls, "hls:")
}


/// Every address that the walk records starts with `http`, given tables that already hold
/// only such addresses.
pub open spec fn all_http(m: Map<Seq<char>, Seq<char>>) -> bool {
    forall|k: Seq<char>| #[trigger] m.contains_key(k) ==> is_http(m[k])
}

proof fn lemma_add_http_members_http(members: Seq<(String, JsonValue)>, table: Map<Seq<char>, Seq<char>>)
    requires
        all_http(table),
    ensures
        all_http(add_http_members(members, table)),
    decreases members.len(),
{
    if members.len() > 0 {
        lemma_add_http_members_http(members.drop_last(), table);
    }
}

proof fn lemma_streams_in_http(v: JsonValue, acc: StreamMaps)
    requires
        all_http(acc.0),
        all_http(acc.1),
    ensures
        all_http(streams_in(v, acc).0),
        all_http(streams_in(v, acc).1),
    decreases v, 0int,
{
    match v {
        JsonValue::Object(members) => {
            assert(decreases_to!(v => members));
            assert(decreases_to!(members => members@));
            let ms = members@;
            match lookup(ms, "flv_pull_url"@) {
                Some(JsonValue::Object(inner)) => lemma_add_http_members_http(inner@, acc.0),
                _ => {},
            }
            match lookup(ms, "hls_pull_url_map"@) {
                Some(JsonValue::Object(inner)) => lemma_add_http_members_http(inner@, acc.1),
                _ => {},
            }
            lemma_members_http(ms, ms.len() as int, (flv_here(ms, acc.0), hls_here(ms, acc.1)));
        },
        JsonValue::Array(items) => {
            assert(decreases_to!(v => items));
            assert(decreases_to!(items => items@));
            lemma_items_http(items@, items@.len() as int, acc);
        },
        _ => {},
    }
}

proof fn lemma_members_http(ms: Seq<(String, JsonValue)>, n: int, acc: StreamMaps)
    requires
        all_http(acc.0),
        all_http(acc.1),
    ensures
        all_http(streams_in_members(ms, n, acc).0),
        all_http(streams_in_members(ms, n, acc).1),
    decreases ms, n,
{
    if 0 < n <= ms.len() {
        lemma_members_http(ms, n - 1, acc);
        assert(decreases_to!(ms => ms[n - 1]));
        assert(decreases_to!(ms[n - 1] => ms[n - 1].1));
        lemma_streams_in_http(ms[n - 1].1, streams_in_members(ms, n - 1, acc));
    }
}

proof fn lemma_items_http(items: Seq<JsonValue>, n: int, acc: StreamMaps)
    requires
        all_http(acc.0),
        all_http(acc.1),
    ensures
        all_http(streams_in_items(items, n, acc).0),
        all_http(streams_in_items(items, n, acc).1),
    decreases items, n,
{
    if 0 < n <= items.len() {
        lemma_items_http(items, n - 1, acc);
        assert(decreases_to!(items => items[n - 1]));
        lemma_streams_in_http(items[n - 1], streams_in_items(items, n - 1, acc));
    }
}

/// Whatever document is walked, starting from empty tables, every stream address found
/// starts with `http`.
pub proof fn law_found_streams_are_http(v: JsonValue)
    ensures
        all_http(streams_in(v, (Map::empty(), Map::empty())).0),
        all_http(streams_in(v, (Map::empty(), Map::empty())).1),
{
    lemma_streams_in_http(v, (Map::empty(), Map::empty()));
}

/// `new` keeps every key of `old`, and each of its values is an `http` address or the old
/// value under the same key.
pub open spec fn grows_http(old: Map<Seq<char>, Seq<char>>, new: Map<Seq<char>, Seq<char>>) -> bool {
    &&& forall|k: Seq<char>| #[trigger] old.contains_key(k) ==> new.contains_key(k)
    &&& forall|k: Seq<char>| #[trigger] new.contains_key(k) ==>
        is_http(new[k]) || (old.contains_key(k) && new[k] == old[k])
}

/// `members` has a member named `k` whose value is a string starting with `http`.
pub open spec fn http_member(members: Seq<(String, JsonValue)>, k: Seq<char>) -> bool {
    exists|i: int| 0 <= i < members.len() && #[trigger] members[i].0@ == k
        && (members[i].1 matches JsonValue::Str(u) && is_http(u@))
}

/// An object with members `ms` itself gives the key `k` to the FLV table (`flv`) or to the
/// HLS table: an `http` member of its `flv_pull_url` (or `hls_pull_url_map`) object, or
/// `default` for an `http` string `flv_pull_url` (or `hls_pull_url`).
pub open spec fn key_here(ms: Seq<(String, JsonValue)>, k: Seq<char>, flv: bool) -> bool {
    if flv {
        match lookup(ms, "flv_pull_url"@) {
            Some(JsonValue::Object(inner)) => http_member(inner@, k),
            Some(JsonValue::Str(u)) => is_http(u@) && k == "default"@,
            _ => false,
        }
    } else {
        (match lookup(ms, "hls_pull_url_map"@) {
            Some(JsonValue::Object(inner)) => http_member(inner@, k),
            _ => false,
        }) || (match lookup(ms, "hls_pull_url"@) {
            Some(JsonValue::Str(u)) => is_http(u@) && k == "default"@,
            _ => false,
        })
    }
}

/// Some object at any depth of `v` gives the key `k` (see `key_here`).
pub open spec fn key_found(v: JsonValue, k: Seq<char>, flv: bool) -> bool
    decreases v, 0int,
{
    match v {
        JsonValue::Object(members) => {
            proof {
                assert(decreases_to!(v => members));
                assert(decreases_to!(members => members@));
            }
            key_here(members@, k, flv) || key_found_members(members@, members@.len() as int, k, flv)
        },
        JsonValue::Array(items) => {
            proof {
                assert(decreases_to!(v => items));
                assert(decreases_to!(items => items@));
            }
            key_found_items(items@, items@.len() as int, k, flv)
        },
        _ => false,
    }
}

/// Some of the first `n` member values gives the key `k` at some depth.
pub open spec fn key_found_members(ms: Seq<(String, JsonValue)>, n: int, k: Seq<char>, flv: bool) -> bool
    decreases ms, n,
{
    if n <= 0 || n > ms.len() {
        false
    } else {
        proof {
            assert(decreases_to!(ms => ms[n - 1]));
            assert(decreases_to!(ms[n - 1] => ms[n - 1].1));
        }
        key_found(ms[n - 1].1, k, flv) || key_found_members(ms, n - 1, k, flv)
    }
}

/// Some of the first `n` items gives the key `k` at some depth.
pub open spec fn key_found_items(items: Seq<JsonValue>, n: int, k: Seq<char>, flv: bool) -> bool
    decreases items, n,
{
    if n <= 0 || n > items.len() {
        false
    } else {
        proof {
            assert(decreases_to!(items => items[n - 1]));
        }
        key_found(items[n - 1], k, flv) || key_found_items(items, n - 1, k, flv)
    }
}

proof fn lemma_grows_trans(a: Map<Seq<char>, Seq<char>>, b: Map<Seq<char>, Seq<char>>, c: Map<Seq<char>, Seq<char>>)
    requires
        grows_http(a, b),
        grows_http(b, c),
    ensures
        grows_http(a, c),
{
    assert forall|k: Seq<char>| #[trigger] a.contains_key(k) implies c.contains_key(k) by {
        assert(b.contains_key(k));
    }
    assert forall|k: Seq<char>| #[trigger] c.contains_key(k) implies
        is_http(c[k]) || (a.contains_key(k) && c[k] == a[k]) by {
        if !is_http(c[k]) {
            assert(b.contains_key(k));
        }
    }
}

proof fn lemma_add_members_grows(members: Seq<(String, JsonValue)>, t: Map<Seq<char>, Seq<char>>)
    ensures
        grows_http(t, add_http_members(members, t)),
        forall|k: Seq<char>| http_member(members, k) ==> #[trigger] add_http_members(members, t).contains_key(k),
    decreases members.len(),
{
    if members.len() > 0 {
        let prev = members.drop_last();
        lemma_add_members_grows(prev, t);
        let r = add_http_members(prev, t);
        let f = add_http_members(members, t);
        assert(grows_http(r, f));
        lemma_grows_trans(t, r, f);
        assert forall|k: Seq<char>| http_member(members, k) implies #[trigger] f.contains_key(k) by {
            let i = choose|i: int| 0 <= i < members.len() && #[trigger] members[i].0@ == k
                && (members[i].1 matches JsonValue::Str(u) && is_http(u@));
            if i < members.len() - 1 {
                assert(prev[i] == members[i]);
                assert(http_member(prev, k));
                assert(r.contains_key(k));
            }
        }
    }
}

proof fn lemma_here(ms: Seq<(String, JsonValue)>, acc: StreamMaps)
    ensures
        grows_http(acc.0, flv_here(ms, acc.0)),
        grows_http(acc.1, hls_here(ms, acc.1)),
        forall|k: Seq<char>| key_here(ms, k, true) ==> #[trigger] flv_here(ms, acc.0).contains_key(k),
        forall|k: Seq<char>| key_here(ms, k, false) ==> #[trigger] hls_here(ms, acc.1).contains_key(k),
{
    match lookup(ms, "flv_pull_url"@) {
        Some(JsonValue::Object(inner)) => lemma_add_members_grows(inner@, acc.0),
        _ => {},
    }
    let h1 = match lookup(ms, "hls_pull_url_map"@) {
        Some(JsonValue::Object(inner)) => add_http_members(inner@, acc.1),
        _ => acc.1,
    };
    match lookup(ms, "hls_pull_url_map"@) {
        Some(JsonValue::Object(inner)) => lemma_add_members_grows(inner@, acc.1),
        _ => {},
    }
    assert(grows_http(h1, hls_here(ms, acc.1)));
    lemma_grows_trans(acc.1, h1, hls_here(ms, acc.1));
}

/// The FLV table (`flv`) or the HLS table of a pair.
pub open spec fn table_of(m: StreamMaps, flv: bool) -> Map<Seq<char>, Seq<char>> {
    if flv { m.0 } else { m.1 }
}

proof fn lemma_walk(v: JsonValue, acc: StreamMaps)
    ensures
        grows_http(acc.0, streams_in(v, acc).0),
        grows_http(acc.1, streams_in(v, acc).1),
        forall|k: Seq<char>, f: bool| key_found(v, k, f) ==> #[trigger] table_of(streams_in(v, acc), f).contains_key(k),
    decreases v, 0int,
{
    match v {
        JsonValue::Object(members) => {
            assert(decreases_to!(v => members));
            assert(decreases_to!(members => members@));
            let ms = members@;
            let acc1 = (flv_here(ms, acc.0), hls_here(ms, acc.1));
            lemma_here(ms, acc);
            lemma_walk_members(ms, ms.len() as int, acc1);
            let r = streams_in(v, acc);
            assert(r == streams_in_members(ms, ms.len() as int, acc1));
            lemma_grows_trans(acc.0, acc1.0, r.0);
            lemma_grows_trans(acc.1, acc1.1, r.1);
            assert forall|k: Seq<char>, f: bool| key_found(v, k, f) implies #[trigger] table_of(r, f).contains_key(k) by {
                if key_here(ms, k, f) {
                    if f {
                        assert(acc1.0.contains_key(k));
                    } else {
                        assert(acc1.1.contains_key(k));
                    }
                } else {
                    assert(key_found_members(ms, ms.len() as int, k, f));
                    assert(table_of(streams_in_members(ms, ms.len() as int, acc1), f).contains_key(k));
                }
            }
        },
        JsonValue::Array(items) => {
            assert(decreases_to!(v => items));
            assert(decreases_to!(items => items@));
            lemma_walk_items(items@, items@.len() as int, acc);
            let r = streams_in(v, acc);
            assert(r == streams_in_items(items@, items@.len() as int, acc));
            assert forall|k: Seq<char>, f: bool| key_found(v, k, f) implies #[trigger] table_of(r, f).contains_key(k) by {
                assert(key_found_items(items@, items@.len() as int, k, f));
                assert(table_of(streams_in_items(items@, items@.len() as int, acc), f).contains_key(k));
            }
        },
        _ => {},
    }
}

proof fn lemma_walk_members(ms: Seq<(String, JsonValue)>, n: int, acc: StreamMaps)
    ensures
        grows_http(acc.0, streams_in_members(ms, n, acc).0),
        grows_http(acc.1, streams_in_members(ms, n, acc).1),
        forall|k: Seq<char>, f: bool| key_found_members(ms, n, k, f)
            ==> #[trigger] table_of(streams_in_members(ms, n, acc), f).contains_key(k),
    decreases ms, n,
{
    if 0 < n <= ms.len() {
        lemma_walk_members(ms, n - 1, acc);
        assert(decreases_to!(ms => ms[n - 1]));
        assert(decreases_to!(ms[n - 1] => ms[n - 1].1));
        let prev = streams_in_members(ms, n - 1, acc);
        lemma_walk(ms[n - 1].1, prev);
        let r = streams_in_members(ms, n, acc);
        assert(r == streams_in(ms[n - 1].1, prev));
        lemma_grows_trans(acc.0, prev.0, r.0);
        lemma_grows_trans(acc.1, prev.1, r.1);
        assert forall|k: Seq<char>, f: bool| key_found_members(ms, n, k, f)
            implies #[trigger] table_of(r, f).contains_key(k) by {
            if key_found(ms[n - 1].1, k, f) {
                assert(table_of(streams_in(ms[n - 1].1, prev), f).contains_key(k));
            } else {
                assert(key_found_members(ms, n - 1, k, f));
                assert(table_of(prev, f).contains_key(k));
                if f {
                    assert(prev.0.contains_key(k));
                } else {
                    assert(prev.1.contains_key(k));
                }
            }
        }
    }
}

proof fn lemma_walk_items(items: Seq<JsonValue>, n: int, acc: StreamMaps)
    ensures
        grows_http(acc.0, streams_in_items(items, n, acc).0),
        grows_http(acc.1, streams_in_items(items, n, acc).1),
        forall|k: Seq<char>, f: bool| key_found_items(items, n, k, f)
            ==> #[trigger] table_of(streams_in_items(items, n, acc), f).contains_key(k),
    decreases items, n,
{
    if 0 < n <= items.len() {
        lemma_walk_items(items, n - 1, acc);
        assert(decreases_to!(items => items[n - 1]));
        let prev = streams_in_items(items, n - 1, acc);
        lemma_walk(items[n - 1], prev);
        let r = streams_in_items(items, n, acc);
        assert(r == streams_in(items[n - 1], prev));
        lemma_grows_trans(acc.0, prev.0, r.0);
        lemma_grows_trans(acc.1, prev.1, r.1);
        assert forall|k: Seq<char>, f: bool| key_found_items(items, n, k, f)
            implies #[trigger] table_of(r, f).contains_key(k) by {
            if key_found(items[n - 1], k, f) {
                assert(table_of(streams_in(items[n - 1], prev), f).contains_key(k));
            } else {
                assert(key_found_items(items, n - 1, k, f));
                assert(table_of(prev, f).contains_key(k));
                if f {
                    assert(prev.0.contains_key(k));
                } else {
                    assert(prev.1.contains_key(k));
                }
            }
        }
    }
}

/// What the stream walk does to any starting tables: every key already there stays; every
/// value in the result is an `http` address or the value that was there before; and every
/// key given at any depth of the document (an `http` member of a `flv_pull_url` or
/// `hls_pull_url_map` object, or `default` for an `http` string `flv_pull_url` or
/// `hls_pull_url`) is in the matching table.
pub proof fn law_stream_walk(v: JsonValue, acc: StreamMaps, k: Seq<char>)
    ensures
        grows_http(acc.0, streams_in(v, acc).0),
        grows_http(acc.1, streams_in(v, acc).1),
        key_found(v, k, true) ==> streams_in(v, acc).0.contains_key(k),
        key_found(v, k, false) ==> streams_in(v, acc).1.contains_key(k),
{
    lemma_walk(v, acc);
    assert(key_found(v, k, true) ==> table_of(streams_in(v, acc), true).contains_key(k));
    assert(key_found(v, k, false) ==> table_of(streams_in(v, acc), false).contains_key(k));
}

/// Every key of the combined table is `flv:` or `hls:` followed by a key of the matching table.
pub proof fn law_merged_keys_prefixed(flv: Map<Seq<char>, Seq<char>>, hls: Map<Seq<char>, Seq<char>>, k: Seq<char>)
    requires
        merged_streams(flv, hls).contains_key(k),
    ensures
        (has_prefix(k, "flv:"@) && flv.contains_key(k.skip(4)) && merged_streams(flv, hls)[k] == flv[k.skip(4)])
            || (has_prefix(k, "hls:"@) && hls.contains_key(k.skip(4)) && merged_streams(flv, hls)[k] == hls[k.skip(4)]),
{
    reveal_strlit("flv:");
    reveal_strlit("hls:");
}

/// The quality order decides: when the address of the `i`-th quality is present and none of
/// the better ones is, that address is picked.
pub proof fn law_best_quality_wins(urls: Map<Seq<char>, Seq<char>>, prefix: Seq<char>, i: int)
    requires
        0 <= i < quality_order().len(),
        urls.contains_key(prefix + quality_order()[i]),
        forall|j: int| 0 <= j < i ==> !urls.contains_key(prefix + #[trigger] quality_order()[j]),
    ensures
        first_quality(urls, prefix, quality_order()) == Some(urls[prefix + quality_order()[i]]),
{
    lemma_first_quality_skip(urls, prefix, quality_order(), i);
}

proof fn lemma_first_quality_skip(urls: Map<Seq<char>, Seq<char>>, prefix: Seq<char>, qs: Seq<Seq<char>>, i: int)
    requires
        0 <= i < qs.len(),
        urls.contains_key(prefix + qs[i]),
        forall|j: int| 0 <= j < i ==> !urls.contains_key(prefix + #[trigger] qs[j]),
    ensures
        first_quality(urls, prefix, qs) == Some(urls[prefix + qs[i]]),
    decreases i,
{
    if i > 0 {
        assert(!urls.contains_key(prefix + qs[0]));
        assert forall|j: int| 0 <= j < i - 1 implies !urls.contains_key(prefix + #[trigger] qs.drop_first()[j]) by {
            assert(qs.drop_first()[j] == qs[j + 1]);
        }
        lemma_first_quality_skip(urls, prefix, qs.drop_first(), i - 1);
    }
}

/// The best quality present wins, in the order OR4, UHD, HD, SD, LD: whatever the table,
/// an address that satisfies the pick of best address (`picks_best`, which `best_flv`,
/// `best_hls` and `pick_resolved` ensure) is the one under the best of these qualities that
/// the table holds.
pub proof fn law_best_quality_order(urls: Map<Seq<char>, Seq<char>>, prefix: Seq<char>, r: Option<Seq<char>>)
    requires
        picks_best(urls, prefix, r),
    ensures
        urls.contains_key(prefix + "OR4"@) ==> r == Some(urls[prefix + "OR4"@]),
        !urls.contains_key(prefix + "OR4"@) && urls.contains_key(prefix + "UHD"@)
            ==> r == Some(urls[prefix + "UHD"@]),
        !urls.contains_key(prefix + "OR4"@) && !urls.contains_key(prefix + "UHD"@)
            && urls.contains_key(prefix + "HD"@) ==> r == Some(urls[prefix + "HD"@]),
        !urls.contains_key(prefix + "OR4"@) && !urls.contains_key(prefix + "UHD"@)
            && !urls.contains_key(prefix + "HD"@) && urls.contains_key(prefix + "SD"@)
            ==> r == Some(urls[prefix + "SD"@]),
        !urls.contains_key(prefix + "OR4"@) && !urls.contains_key(prefix + "UHD"@)
            && !urls.contains_key(prefix + "HD"@) && !urls.contains_key(prefix + "SD"@)
            && urls.contains_key(prefix + "LD"@) ==> r == Some(urls[prefix + "LD"@]),
{
    let q = quality_order();
    assert(q[0] == "OR4"@ && q[1] == "UHD"@ && q[2] == "HD"@ && q[3] == "SD"@ && q[4] == "LD"@);
    assert(q.drop_first()[0] == "UHD"@);
    assert(q.drop_first().drop_first()[0] == "HD"@);
    assert(q.drop_first().drop_first().drop_first()[0] == "SD"@);
    assert(q.drop_first().drop_first().drop_first().drop_first()[0] == "LD"@);
    reveal_with_fuel(first_quality, 6);
}

} // verus!
