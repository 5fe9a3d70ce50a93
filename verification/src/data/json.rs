use super::data::{ai_type_number, tag_view, AiType, PixivData};
use super::fanbox::FanboxData;
use crate::json_value::{json_str, Json};
use crate::text::str_eq;
use vstd::prelude::*;

verus! {

/// Store metadata informations in JSON file
pub struct JSONDataFile {
    id: u64,
    maps: Vec<(String, Json)>,
}

/// The keys of a list of entries.
pub open spec fn entry_keys(es: Seq<(String, Json)>) -> Seq<Seq<char>> {
    es.map_values(|e: (String, Json)| e.0@)
}

/// The entries after setting a key: its entry replaced in place, or a new
/// entry at the end.
pub open spec fn entries_set(es: Seq<(String, Json)>, key: Seq<char>, value: Json) -> Seq<(String, Json)> {
    if exists|i: int| 0 <= i < es.len() && es[i].0@ == key {
        let i = choose|i: int| 0 <= i < es.len() && es[i].0@ == key;
        es.update(i, (es[i].0, value))
    } else {
        es.push((arbitrary::<String>(), value))
    }
}

impl JSONDataFile {
    /// No key is set twice.
    #[verifier::type_invariant]
    spec fn keys_distinct(self) -> bool {
        entry_keys(self.maps@).no_duplicates()
    }

    /// The artwork the data is for.
    pub closed spec fn spec_id(&self) -> u64 {
        self.id
    }

    /// The keys set and their values, as a map.
    pub closed spec fn values(&self) -> Map<Seq<char>, Json> {
        Map::new(
            |k: Seq<char>| exists|i: int| 0 <= i < self.maps@.len() && self.maps@[i].0@ == k,
            |k: Seq<char>|
                self.maps@[choose|i: int| 0 <= i < self.maps@.len() && self.maps@[i].0@ == k].1,
        )
    }

    /// No data yet for an artwork.
    pub fn new(id: u64) -> (r: Option<Self>)
        ensures
            r matches Some(f) && f.spec_id() == id && f.values() == Map::<Seq<char>, Json>::empty(),
    {
        let f = JSONDataFile { id, maps: Vec::new() };
        assert(entry_keys(f.maps@) =~= Seq::<Seq<char>>::empty());
        assert(f.values() =~= Map::<Seq<char>, Json>::empty());
        Some(f)
    }

    /// Sets the value of a key.
    pub fn add(&mut self, key: &str, value: Json)
        ensures
            final(self).spec_id() == old(self).spec_id(),
            final(self).values() == old(self).values().insert(key@, value),
    {
        proof {
            use_type_invariant(&*self);
        }
        let ghost old_maps = self.maps@;
        let n = self.maps.len();
        let mut i: usize = 0;
        while i < n
            invariant
                i <= n == self.maps@.len(),
                self.maps@ == old_maps,
                old_maps == old(self).maps@,
                self.id == old(self).id,
                entry_keys(old_maps).no_duplicates(),
                forall|j: int| 0 <= j < i ==> self.maps@[j].0@ != key@,
            decreases n - i,
        {
            if str_eq(self.maps[i].0.as_str(), key) {
                let mut v: Vec<(String, Json)> = Vec::new();
                std::mem::swap(&mut v, &mut self.maps);
                let k = String::from_str(key);
                v.set(i, (k, value));
                proof {
                    let ks = entry_keys(v@);
                    assert(ks =~= entry_keys(old_maps).update(i as int, key@));
                    assert(ks.no_duplicates()) by {
                        let ok = entry_keys(old_maps);
                        assert forall|a: int, b: int|
                            0 <= a < ks.len() && 0 <= b < ks.len() && a != b implies ks[a]
                            != ks[b] by {
                            if a != i && b != i {
                                assert(ks[a] == ok[a] && ks[b] == ok[b]);
                            } else if a == i {
                                assert(ok[b] == ks[b] && ok[i as int] == key@);
                            } else {
                                assert(ok[a] == ks[a] && ok[i as int] == key@);
                            }
                        }
                    }
                }
                self.maps = v;
                proof {
                    assert forall|k: Seq<char>| #[trigger] self.values().contains_key(k)
                        == old(self).values().insert(key@, value).contains_key(k) by {
                        if k == key@ {
                            assert(self.maps@[i as int].0@ == k);
                        } else if old(self).values().contains_key(k) {
                            let j = choose|j: int| 0 <= j < old_maps.len() && old_maps[j].0@ == k;
                            assert(self.maps@[j].0@ == k);
                        } else if self.values().contains_key(k) {
                            let j = choose|j: int|
                                0 <= j < self.maps@.len() && self.maps@[j].0@ == k;
                            assert(old_maps[j].0@ == k);
                        }
                    }
                    assert forall|k: Seq<char>| #[trigger] self.values().contains_key(k) implies self.values()[k]
                        == old(self).values().insert(key@, value)[k] by {
                        let ks = entry_keys(self.maps@);
                        let ok = entry_keys(old_maps);
                        let j = choose|j: int| 0 <= j < self.maps@.len() && self.maps@[j].0@ == k;
                        if k == key@ {
                            assert(ks[j] == ks[i as int]);
                        } else {
                            let j0 = choose|j0: int| 0 <= j0 < old_maps.len() && old_maps[j0].0@ == k;
                            assert(ok[j0] == ok[j]);
                        }
                    }
                    assert(self.values() =~= old(self).values().insert(key@, value));
                }
                return;
            }
            i = i + 1;
        }
        let mut v: Vec<(String, Json)> = Vec::new();
        std::mem::swap(&mut v, &mut self.maps);
        v.push((String::from_str(key), value));
        proof {
            let ks = entry_keys(v@);
            let ok = entry_keys(old_maps);
            assert(ks =~= ok.push(key@));
            assert(ks.no_duplicates()) by {
                assert forall|a: int, b: int|
                    0 <= a < ks.len() && 0 <= b < ks.len() && a != b implies ks[a] != ks[b] by {
                    if a < ok.len() && b < ok.len() {
                        assert(ks[a] == ok[a] && ks[b] == ok[b]);
                    } else if a < ok.len() {
                        assert(ks[a] == old_maps[a].0@);
                    } else {
                        assert(ks[b] == old_maps[b].0@);
                    }
                }
            }
        }
        self.maps = v;
        proof {
            assert forall|k: Seq<char>| #[trigger] self.values().contains_key(k)
                == old(self).values().insert(key@, value).contains_key(k) by {
                if k == key@ {
                    assert(self.maps@[n as int].0@ == k);
                } else if old(self).values().contains_key(k) {
                    let j = choose|j: int| 0 <= j < old_maps.len() && old_maps[j].0@ == k;
                    assert(self.maps@[j].0@ == k);
                } else if self.values().contains_key(k) {
                    let j = choose|j: int| 0 <= j < self.maps@.len() && self.maps@[j].0@ == k;
                    assert(old_maps[j].0@ == k);
                }
            }
            assert forall|k: Seq<char>| #[trigger] self.values().contains_key(k) implies self.values()[k]
                == old(self).values().insert(key@, value)[k] by {
                let ks = entry_keys(self.maps@);
                let j = choose|j: int| 0 <= j < self.maps@.len() && self.maps@[j].0@ == k;
                if k == key@ {
                    assert(ks[j] == ks[n as int]);
                } else {
                    let j0 = choose|j0: int| 0 <= j0 < old_maps.len() && old_maps[j0].0@ == k;
                    assert(ks[j0] == ks[j]);
                }
            }
            assert(self.values() =~= old(self).values().insert(key@, value));
        }
    }

    /// The artwork the data is for.
    pub fn id(&self) -> (r: u64)
        ensures
            r == self.spec_id(),
    {
        self.id
    }

    /// The value set for a key.
    pub fn get(&self, key: &str) -> (r: Option<&Json>)
        ensures
            match r {
                Some(v) => self.values().contains_key(key@) && self.values()[key@] == *v,
                None => !self.values().contains_key(key@),
            },
    {
        proof {
            use_type_invariant(self);
        }
        let n = self.maps.len();
        let mut i: usize = 0;
        while i < n
            invariant
                i <= n == self.maps@.len(),
                entry_keys(self.maps@).no_duplicates(),
                forall|j: int| 0 <= j < i ==> self.maps@[j].0@ != key@,
            decreases n - i,
        {
            if str_eq(self.maps[i].0.as_str(), key) {
                proof {
                    let ks = entry_keys(self.maps@);
                    let j = choose|j: int| 0 <= j < self.maps@.len() && self.maps@[j].0@ == key@;
                    assert(ks[j] == ks[i as int]);
                }
                return Some(&self.maps[i].1);
            }
            i = i + 1;
        }
        None
    }
}

/// Whether a JSON value is the pair `[tag, translation or null]` of a tag.
pub open spec fn tag_json_ok(j: Json, t: (Seq<char>, Option<Seq<char>>)) -> bool {
    match j {
        Json::Array(w) => w@.len() == 2 && json_str(Some(w@[0])) == Some(t.0) && match t.1 {
            Some(x) => json_str(Some(w@[1])) == Some(x),
            None => w@[1] is Null,
        },
        _ => false,
    }
}

/// Whether a JSON value is the array of the pairs of tags, in order.
pub open spec fn tags_json_ok(j: Json, ts: Seq<(Seq<char>, Option<Seq<char>>)>) -> bool {
    match j {
        Json::Array(v) => v@.len() == ts.len() && forall|i: int|
            0 <= i < ts.len() ==> tag_json_ok(#[trigger] v@[i], ts[i]),
        _ => false,
    }
}

/// Whether the value set for a key is the text, when there is one, and no
/// value is set when there is none.
pub open spec fn text_entry_ok(m: Map<Seq<char>, Json>, key: Seq<char>, t: Option<Seq<char>>) -> bool {
    match t {
        Some(x) => m.contains_key(key) && json_str(Some(m[key])) == Some(x),
        None => !m.contains_key(key),
    }
}

/// The JSON of a tag pair.
fn tag_json(t: &(String, Option<String>)) -> (r: Json)
    ensures
        tag_json_ok(r, tag_view(*t)),
{
    let second = match &t.1 {
        Some(x) => Json::Str(x.clone()),
        None => Json::Null,
    };
    let v = vec![Json::Str(t.0.clone()), second];
    Json::Array(v)
}

impl JSONDataFile {
    /// The metadata of an artwork: its title, author, description and tags
    /// (each as a pair of the tag and its translation or null), those it
    /// has, under these names; and always `is_ai` and `ai_type`, whether it
    /// is made by AI and pixiv's number for that, both null when not known.
    pub fn from_data(p: &PixivData) -> (r: Self)
        ensures
            r.spec_id() == p.id,
            text_entry_ok(r.values(), "title"@, p@.title),
            text_entry_ok(r.values(), "author"@, p@.author),
            text_entry_ok(r.values(), "description"@, p@.description),
            match p@.tags {
                Some(ts) => r.values().contains_key("tags"@) && tags_json_ok(r.values()["tags"@], ts),
                None => !r.values().contains_key("tags"@),
            },
            r.values().contains_key("is_ai"@),
            r.values()["is_ai"@] == match p@.ai_type {
                Some(t) => Json::Boolean(t == AiType::Ai),
                None => Json::Null,
            },
            r.values().contains_key("ai_type"@),
            r.values()["ai_type"@] == match p@.ai_type {
                Some(t) => Json::Number(Some(ai_type_number(t) as i64)),
                None => Json::Null,
            },
    {
        let mut f = JSONDataFile::new(p.id).unwrap();
        proof {
            reveal_strlit("title");
            reveal_strlit("author");
            reveal_strlit("description");
            reveal_strlit("tags");
            reveal_strlit("is_ai");
            reveal_strlit("ai_type");
            assert("title"@.len() == 5 && "author"@.len() == 6 && "description"@.len() == 11
                && "tags"@.len() == 4 && "is_ai"@.len() == 5 && "ai_type"@.len() == 7);
            assert("title"@ != "author"@ && "title"@ != "description"@ && "title"@ != "tags"@);
            assert("author"@ != "description"@ && "author"@ != "tags"@);
            assert("description"@ != "tags"@);
            assert("is_ai"@[0] != "title"@[0] && "is_ai"@[0] != "author"@[0] && "is_ai"@[0] != "description"@[0]
                && "is_ai"@ != "tags"@);
            assert("ai_type"@[0] != "title"@[0] && "ai_type"@ != "author"@ && "ai_type"@ != "description"@
                && "ai_type"@ != "tags"@ && "ai_type"@ != "is_ai"@);
        }
        if let Some(t) = &p.title {
            f.add("title", Json::Str(t.clone()));
        }
        let ghost m1 = f.values();
        if let Some(a) = &p.author {
            f.add("author", Json::Str(a.clone()));
        }
        let ghost m2 = f.values();
        if let Some(d) = &p.description {
            f.add("description", Json::Str(d.clone()));
        }
        let ghost m3 = f.values();
        match &p.tags {
            Some(ts) => {
                let mut v: Vec<Json> = Vec::new();
                let mut i: usize = 0;
                while i < ts.len()
                    invariant
                        i <= ts@.len(),
                        v@.len() == i,
                        forall|k: int| 0 <= k < i ==> tag_json_ok(#[trigger] v@[k], tag_view(ts@[k])),
                    decreases ts@.len() - i,
                {
                    v.push(tag_json(&ts[i]));
                    i = i + 1;
                }
                let j = Json::Array(v);
                assert(tags_json_ok(j, ts@.map_values(|t: (String, Option<String>)| tag_view(t))));
                f.add("tags", j);
            },
            None => {},
        }
        let ghost m4 = f.values();
        match &p.ai_type {
            Some(t) => {
                f.add("is_ai", Json::Boolean(t.is_ai()));
                let n: u8 = t.int_value();
                f.add("ai_type", Json::Number(Some(n as i64)));
            },
            None => {
                f.add("is_ai", Json::Null);
                f.add("ai_type", Json::Null);
            },
        }
        assert(f.values().contains_key("title"@) == m1.contains_key("title"@));
        assert(m1.contains_key("title"@) ==> f.values()["title"@] == m1["title"@]);
        assert(f.values().contains_key("author"@) == m2.contains_key("author"@));
        assert(m2.contains_key("author"@) ==> f.values()["author"@] == m2["author"@]);
        assert(f.values().contains_key("description"@) == m3.contains_key("description"@));
        assert(m3.contains_key("description"@) ==> f.values()["description"@] == m3["description"@]);
        assert(f.values().contains_key("tags"@) == m4.contains_key("tags"@));
        assert(m4.contains_key("tags"@) ==> f.values()["tags"@] == m4["tags"@]);
        f
    }
}

impl JSONDataFile {
    /// The metadata of a fanbox post: its raw JSON under `raw`.
    pub fn from_fanbox_data(d: FanboxData) -> (r: Self)
        ensures
            r.spec_id() == d.id,
            r.values() == Map::<Seq<char>, Json>::empty().insert("raw"@, d.raw),
    {
        let mut f = JSONDataFile::new(d.id).unwrap();
        f.add("raw", d.raw);
        f
    }
}

} // verus!
