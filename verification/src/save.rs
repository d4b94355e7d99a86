//! Persistence bookkeeping: the chunked save file (a schema version plus one
//! independently serialized text chunk per feature), the save/load pass flags, stable
//! instance ids for persistent structures, and which authored content a save predates.
//!
//! Each feature serializes its own chunk to text and hands it to [`SaveFile::write`];
//! reading hands the text back for the feature to parse.
use vstd::prelude::*;

use crate::blueprint::RootKind;

verus! {

/// Save schema version this build writes and accepts.
pub const SAVE_VERSION: u32 = 3;

/// Where a persistent structure came from.
#[derive(Debug)]
pub enum Origin {
    /// Hand-authored content with a stable content id (e.g. `"station"`).
    Authored(String),
    /// Created by the player at runtime.
    PlayerBuilt,
}

impl Origin {
    /// The name a structure is listed under: its content id, or `<built>`.
    pub fn display_name(&self) -> (r: String)
        ensures
            match self {
                Origin::Authored(id) => r@ == id@,
                Origin::PlayerBuilt => r@ == "<built>"@,
            },
    {
        match self {
            Origin::Authored(id) => id.clone(),
            Origin::PlayerBuilt => String::from_str("<built>"),
        }
    }
}

/// A stable, unique id for a persistent instance, used for save cross-references.
#[derive(PartialEq, Eq, Structural, Clone, Copy, Debug, Hash)]
pub struct InstanceId(pub u64);

/// The next [`InstanceId`] to hand out.
#[derive(PartialEq, Eq, Structural, Clone, Copy, Debug)]
pub struct NextInstanceId(pub u64);

impl Default for NextInstanceId {
    /// Ids start at 1; 0 is left free to mean "none".
    fn default() -> (r: Self)
        ensures
            r.0 == 1,
    {
        NextInstanceId(1)
    }
}

/// The ids handed to `count` new structures when the counter stands at `start`.
pub open spec fn assigned_ids(start: u64, count: nat) -> Seq<u64> {
    Seq::new(count, |i: int| (start + i) as u64)
}

/// Give `count` newly spawned persistent structures their ids, in order: consecutive ids
/// from the counter, which then stands just past the last one.
pub fn assign_instance_ids(next: &mut NextInstanceId, count: usize) -> (ids: Vec<InstanceId>)
    requires
        old(next).0 + count <= u64::MAX,
    ensures
        ids@.map_values(|id: InstanceId| id.0) == assigned_ids(old(next).0, count as nat),
        final(next).0 == old(next).0 + count,
{
    let mut ids: Vec<InstanceId> = Vec::new();
    let ghost start = next.0;
    let mut i: usize = 0;
    while i < count
        invariant
            i <= count,
            start + count <= u64::MAX,
            next.0 == start + i,
            ids@.len() == i,
            ids@.map_values(|id: InstanceId| id.0) == assigned_ids(start, i as nat),
        decreases count - i,
    {
        let ghost before = ids@;
        let id = InstanceId(next.0);
        ids.push(id);
        next.0 = next.0 + 1;
        proof {
            let mv = ids@.map_values(|id: InstanceId| id.0);
            let bv = before.map_values(|id: InstanceId| id.0);
            assert(mv.len() == i + 1);
            assert forall|j: int| 0 <= j < i + 1 implies #[trigger] mv[j] == assigned_ids(start, (i + 1) as nat)[j] by {
                if j < i {
                    assert(ids@[j] == before[j]);
                    assert(bv[j] == assigned_ids(start, i as nat)[j]);
                } else {
                    assert(ids@[j] == id);
                }
            }
            assert(mv =~= assigned_ids(start, (i + 1) as nat));
        }
        i += 1;
    }
    ids
}

/// Instance ids are never reused: the ids of one assignment are distinct, and the ids of
/// the next assignment (from where the counter then stands) are all different from them.
pub proof fn law_instance_ids_unique(start: u64, n: nat, m: nat)
    requires
        start + n + m <= u64::MAX,
    ensures
        assigned_ids(start, n).no_duplicates(),
        start >= 1 ==> forall|i: int| 0 <= i < n ==> #[trigger] assigned_ids(start, n)[i] != 0,
        forall|i: int, j: int|
            0 <= i < n && 0 <= j < m ==> #[trigger] assigned_ids(start, n)[i] != #[trigger] assigned_ids((start + n) as u64, m)[j],
{
}

/// The on-disk save: a schema version plus named chunks of serialized text, each owned
/// by one feature. No two chunks share a key.
#[derive(Debug)]
pub struct SaveFile {
    version: u32,
    chunks: Vec<(String, String)>,
}

/// The keys of chunk entries.
pub open spec fn chunk_keys(chunks: Seq<(String, String)>) -> Seq<Seq<char>> {
    chunks.map_values(|c: (String, String)| c.0@)
}

/// The chunks of entries as a map from key to text (keys are unique).
pub open spec fn chunk_map(chunks: Seq<(String, String)>) -> Map<Seq<char>, Seq<char>> {
    Map::new(
        |k: Seq<char>| chunk_keys(chunks).contains(k),
        |k: Seq<char>| chunks[chunk_keys(chunks).index_of(k)].1@,
    )
}

/// With unique keys, entry `i` is the one its key maps to.
proof fn lemma_chunk_at(chunks: Seq<(String, String)>, i: int)
    requires
        chunk_keys(chunks).no_duplicates(),
        0 <= i < chunks.len(),
    ensures
        chunk_map(chunks).contains_key(chunks[i].0@),
        chunk_map(chunks)[chunks[i].0@] == chunks[i].1@,
{
    let ks = chunk_keys(chunks);
    assert(ks[i] == chunks[i].0@);
    assert(ks.contains(chunks[i].0@));
    let w = ks.index_of(chunks[i].0@);
    assert(0 <= w < ks.len() && ks[w] == chunks[i].0@);
    assert(w == i);
}

impl SaveFile {
    /// The schema version stamped on the file.
    pub closed spec fn spec_version(&self) -> u32 {
        self.version
    }

    /// The chunks, keyed by name.
    pub closed spec fn spec_chunks(&self) -> Map<Seq<char>, Seq<char>> {
        chunk_map(self.chunks@)
    }

    /// No two chunks share a key.
    pub closed spec fn wf(&self) -> bool {
        chunk_keys(self.chunks@).no_duplicates()
    }

    /// An empty save of version 0 (nothing written yet).
    pub fn new() -> (r: SaveFile)
        ensures
            r.wf(),
            r.spec_version() == 0,
            r.spec_chunks() == Map::<Seq<char>, Seq<char>>::empty(),
    {
        let r = SaveFile { version: 0, chunks: Vec::new() };
        assert(chunk_keys(r.chunks@) =~= Seq::<Seq<char>>::empty());
        r
    }

    /// A save read back from its parts (what the file parser produced): a version and
    /// chunks with distinct keys.
    pub fn from_parts(version: u32, entries: Vec<(String, String)>) -> (r: SaveFile)
        requires
            chunk_keys(entries@).no_duplicates(),
        ensures
            r.wf(),
            r.spec_version() == version,
            r.spec_chunks() == chunk_map(entries@),
    {
        SaveFile { version, chunks: entries }
    }

    /// The schema version stamped on the file.
    pub fn version(&self) -> (r: u32)
        ensures
            r == self.spec_version(),
    {
        self.version
    }

    /// The chunks as `(key, text)` pairs, each key once, for writing the file out.
    pub fn chunks(&self) -> (r: &Vec<(String, String)>)
        requires
            self.wf(),
        ensures
            chunk_map(r@) == self.spec_chunks(),
            chunk_keys(r@).no_duplicates(),
    {
        &self.chunks
    }

    /// The position of the chunk stored under `key`.
    fn position(&self, key: &str) -> (r: Option<usize>)
        ensures
            r matches Some(i) ==> i < self.chunks@.len() && self.chunks@[i as int].0@ == key@,
            r is None ==> !chunk_keys(self.chunks@).contains(key@),
    {
        let mut i: usize = 0;
        while i < self.chunks.len()
            invariant
                i <= self.chunks@.len(),
                forall|j: int| 0 <= j < i ==> self.chunks@[j].0@ != key@,
            decreases self.chunks@.len() - i,
        {
            let k = String::from_str(key);
            if self.chunks[i].0 == k {
                return Some(i);
            }
            i += 1;
        }
        proof {
            if chunk_keys(self.chunks@).contains(key@) {
                let w = choose|w: int| 0 <= w < chunk_keys(self.chunks@).len() && chunk_keys(self.chunks@)[w] == key@;
                assert(self.chunks@[w].0@ == key@);
            }
        }
        None
    }

    /// Store a feature's serialized chunk `text` under `key`, replacing any chunk already
    /// stored there.
    pub fn write_text(&mut self, key: &str, text: String)
        requires
            old(self).wf(),
        ensures
            final(self).wf(),
            final(self).spec_version() == old(self).spec_version(),
            final(self).spec_chunks() == old(self).spec_chunks().insert(key@, text@),
    {
        let ghost before = self.chunks@;
        let ghost bk = chunk_keys(before);
        match self.position(key) {
            Some(i) => {
                let k = String::from_str(key);
                self.chunks.set(i, (k, text));
                let ghost after = self.chunks@;
                assert(chunk_keys(after) =~= bk.update(i as int, key@));
                assert(bk[i as int] == key@);
                assert(chunk_keys(after) =~= bk);
                assert forall|q: Seq<char>| #[trigger] chunk_map(after).contains_key(q) == chunk_map(before).insert(key@, text@).contains_key(q) by {
                    if q == key@ {
                        assert(bk.contains(key@));
                    }
                }
                assert forall|q: Seq<char>| #[trigger] chunk_map(after).contains_key(q) implies chunk_map(after)[q] == chunk_map(before).insert(key@, text@)[q] by {
                    let w = choose|w: int| 0 <= w < bk.len() && bk[w] == q;
                    lemma_chunk_at(after, w);
                    if w != i as int {
                        assert(after[w] == before[w]);
                        lemma_chunk_at(before, w);
                    }
                }
                assert(self.spec_chunks() =~= chunk_map(before).insert(key@, text@));
            },
            None => {
                let k = String::from_str(key);
                self.chunks.push((k, text));
                let ghost after = self.chunks@;
                assert(chunk_keys(after) =~= bk.push(key@));
                assert(chunk_keys(after).no_duplicates()) by {
                    assert forall|p: int, q: int| 0 <= p < chunk_keys(after).len() && 0 <= q < chunk_keys(after).len() && p != q implies chunk_keys(after)[p] != chunk_keys(after)[q] by {
                        if p == before.len() && q < before.len() {
                            assert(bk[q] != key@);
                        } else if q == before.len() && p < before.len() {
                            assert(bk[p] != key@);
                        }
                    }
                }
                assert forall|q: Seq<char>| #[trigger] chunk_map(after).contains_key(q) == chunk_map(before).insert(key@, text@).contains_key(q) by {
                    if chunk_keys(after).contains(q) && q != key@ {
                        let w = choose|w: int| 0 <= w < chunk_keys(after).len() && chunk_keys(after)[w] == q;
                        assert(bk[w] == q);
                    }
                    if bk.contains(q) {
                        let w = choose|w: int| 0 <= w < bk.len() && bk[w] == q;
                        assert(chunk_keys(after)[w] == q);
                    }
                    if q == key@ {
                        assert(chunk_keys(after)[before.len() as int] == q);
                    }
                }
                assert forall|q: Seq<char>| #[trigger] chunk_map(after).contains_key(q) implies chunk_map(after)[q] == chunk_map(before).insert(key@, text@)[q] by {
                    let w = choose|w: int| 0 <= w < chunk_keys(after).len() && chunk_keys(after)[w] == q;
                    lemma_chunk_at(after, w);
                    if w < before.len() {
                        assert(after[w] == before[w]);
                        lemma_chunk_at(before, w);
                    }
                }
                assert(self.spec_chunks() =~= chunk_map(before).insert(key@, text@));
            },
        }
    }

    /// The text of the chunk stored under `key`, or `None` if the save has no such chunk.
    pub fn read_text(&self, key: &str) -> (r: Option<&String>)
        requires
            self.wf(),
        ensures
            r is Some <==> self.spec_chunks().contains_key(key@),
            r matches Some(t) ==> t@ == self.spec_chunks()[key@],
    {
        match self.position(key) {
            Some(i) => {
                proof {
                    lemma_chunk_at(self.chunks@, i as int);
                }
                Some(&self.chunks[i].1)
            },
            None => None,
        }
    }
}

/// A chunk reads back as it was last written: after `write_text(key, text)` the chunk
/// under `key` holds `text`, and every other chunk reads as before.
pub proof fn law_read_after_write(before: SaveFile, after: SaveFile, key: Seq<char>, text: Seq<char>)
    requires
        before.wf(),
        after.spec_chunks() == before.spec_chunks().insert(key, text),
    ensures
        after.spec_chunks().contains_key(key),
        after.spec_chunks()[key] == text,
        forall|other: Seq<char>| other != key ==> (#[trigger] after.spec_chunks().contains_key(other)
            == before.spec_chunks().contains_key(other)),
        forall|other: Seq<char>| other != key && before.spec_chunks().contains_key(other)
            ==> #[trigger] after.spec_chunks()[other] == before.spec_chunks()[other],
{
}

/// Whether a save or load is in flight this frame.
#[derive(PartialEq, Eq, Structural, Clone, Copy, Debug)]
pub struct PersistOp {
    pub save: bool,
    pub load: bool,
}

impl PersistOp {
    /// Nothing in flight.
    pub fn new() -> (r: PersistOp)
        ensures
            !r.save && !r.load,
    {
        PersistOp { save: false, load: false }
    }
}

/// Run condition: a save is in progress.
pub fn saving(op: &PersistOp) -> (r: bool)
    ensures
        r == op.save,
{
    op.save
}

/// Run condition: a load is in progress.
pub fn loading(op: &PersistOp) -> (r: bool)
    ensures
        r == op.load,
{
    op.load
}

/// Begin a save when the save key was pressed: stamp the current version, drop stale
/// chunks, and flag the capture pass. Otherwise nothing changes.
pub fn request_save(pressed: bool, op: &mut PersistOp, file: &mut SaveFile)
    requires
        old(file).wf(),
    ensures
        final(file).wf(),
        pressed ==> final(file).spec_version() == SAVE_VERSION,
        pressed ==> final(file).spec_chunks() == Map::<Seq<char>, Seq<char>>::empty(),
        pressed ==> *final(op) == (PersistOp { save: true, ..*old(op) }),
        !pressed ==> *final(op) == *old(op) && final(file).spec_chunks() == old(file).spec_chunks()
            && final(file).spec_version() == old(file).spec_version(),
{
    if pressed {
        file.version = SAVE_VERSION;
        file.chunks.clear();
        assert(chunk_keys(file.chunks@) =~= Seq::<Seq<char>>::empty());
        op.save = true;
    }
}

/// End the save pass (the file has been written out).
pub fn commit_save(op: &mut PersistOp)
    ensures
        *final(op) == (PersistOp { save: false, ..*old(op) }),
{
    op.save = false;
}

/// End the load pass (every feature has applied its chunk).
pub fn commit_load(op: &mut PersistOp)
    ensures
        *final(op) == (PersistOp { load: false, ..*old(op) }),
{
    op.load = false;
}

/// Take a parsed save file: a file of another schema version is refused (nothing
/// changes); a file of this version replaces the current one and flags the load pass.
pub fn accept_loaded(loaded: SaveFile, file: &mut SaveFile, op: &mut PersistOp) -> (accepted: bool)
    requires
        loaded.wf(),
        old(file).wf(),
    ensures
        accepted == (loaded.spec_version() == SAVE_VERSION),
        final(file).wf(),
        accepted ==> final(file).spec_version() == loaded.spec_version() && final(file).spec_chunks()
            == loaded.spec_chunks() && *final(op) == (PersistOp { load: true, ..*old(op) }),
        !accepted ==> *final(op) == *old(op) && final(file).spec_version() == old(file).spec_version()
            && final(file).spec_chunks() == old(file).spec_chunks(),
{
    if loaded.version != SAVE_VERSION {
        return false;
    }
    *file = loaded;
    op.load = true;
    true
}

/// Every authored content id the game defines, in spawn order.
pub open spec fn authored_content() -> Seq<Seq<char>> {
    seq!["player_ship"@, "enemy_ship"@, "station"@]
}

/// The authored content ids, as text.
pub fn authored_content_ids() -> (r: Vec<String>)
    ensures
        r@.map_values(|s: String| s@) == authored_content(),
{
    let mut r: Vec<String> = Vec::new();
    r.push(String::from_str("player_ship"));
    r.push(String::from_str("enemy_ship"));
    r.push(String::from_str("station"));
    assert(r@.map_values(|s: String| s@) =~= authored_content());
    r
}

/// The ids of `ids` that `known` does not list, in order.
pub open spec fn missing_ids(ids: Seq<Seq<char>>, known: Seq<Seq<char>>) -> Seq<Seq<char>>
    decreases ids.len(),
{
    if ids.len() == 0 {
        Seq::empty()
    } else if known.contains(ids.last()) {
        missing_ids(ids.drop_last(), known)
    } else {
        missing_ids(ids.drop_last(), known).push(ids.last())
    }
}

/// Whether `known` lists `id`.
fn lists(known: &Vec<String>, id: &String) -> (r: bool)
    ensures
        r == known@.map_values(|s: String| s@).contains(id@),
{
    let ghost kv = known@.map_values(|s: String| s@);
    let mut i: usize = 0;
    while i < known.len()
        invariant
            i <= known@.len(),
            kv == known@.map_values(|s: String| s@),
            forall|j: int| 0 <= j < i ==> kv[j] != id@,
        decreases known@.len() - i,
    {
        if known[i] == *id {
            assert(kv[i as int] == id@);
            return true;
        }
        i += 1;
    }
    false
}

/// The authored content a save predates: the ids of [`authored_content`] its
/// `known_content_ids` do not list, in spawn order. Those are injected as new content on
/// load; authored content the save knew but no longer holds stays gone.
pub fn new_authored_content(known: &Vec<String>) -> (r: Vec<String>)
    ensures
        r@.map_values(|s: String| s@) == missing_ids(authored_content(), known@.map_values(|s: String| s@)),
{
    let ids = authored_content_ids();
    let ghost kv = known@.map_values(|s: String| s@);
    let ghost av = ids@.map_values(|s: String| s@);
    let mut r: Vec<String> = Vec::new();
    let mut i: usize = 0;
    while i < ids.len()
        invariant
            i <= ids@.len(),
            av == ids@.map_values(|s: String| s@),
            kv == known@.map_values(|s: String| s@),
            r@.map_values(|s: String| s@) == missing_ids(av.take(i as int), kv),
        decreases ids@.len() - i,
    {
        let ghost before = r@;
        assert(av.take(i + 1).drop_last() == av.take(i as int));
        assert(av.take(i + 1).last() == ids@[i as int]@);
        if !lists(known, &ids[i]) {
            r.push(ids[i].clone());
            assert(r@.map_values(|s: String| s@) =~= before.map_values(|s: String| s@).push(ids@[i as int]@));
        }
        i += 1;
    }
    assert(av.take(ids@.len() as int) == av);
    r
}

/// On load exactly the authored content a save did not know is injected: an id is
/// injected if and only if the game authors it and the save's known ids do not list it,
/// and none is injected twice.
pub proof fn law_injects_exactly_unknown(ids: Seq<Seq<char>>, known: Seq<Seq<char>>, id: Seq<char>)
    requires
        ids.no_duplicates(),
    ensures
        missing_ids(ids, known).contains(id) <==> (ids.contains(id) && !known.contains(id)),
        missing_ids(ids, known).no_duplicates(),
    decreases ids.len(),
{
    if ids.len() > 0 {
        let rest = ids.drop_last();
        assert(rest.no_duplicates()) by {
            assert forall|p: int, q: int| 0 <= p < q < rest.len() implies rest[p] != rest[q] by {
                assert(rest[p] == ids[p] && rest[q] == ids[q]);
            }
        }
        law_injects_exactly_unknown(rest, known, id);
        law_injects_exactly_unknown(rest, known, ids.last());
        assert(!rest.contains(ids.last())) by {
            if rest.contains(ids.last()) {
                let w = choose|w: int| 0 <= w < rest.len() && rest[w] == ids.last();
                assert(ids[w] == ids[ids.len() - 1]);
            }
        }
        if ids.contains(id) && id != ids.last() {
            let w = choose|w: int| 0 <= w < ids.len() && ids[w] == id;
            assert(rest[w] == id);
        }
        if rest.contains(id) {
            let w = choose|w: int| 0 <= w < rest.len() && rest[w] == id;
            assert(ids[w] == id);
        }
        let m = missing_ids(rest, known);
        if !known.contains(ids.last()) {
            let m2 = m.push(ids.last());
            assert(m2.last() == ids.last());
            assert forall|p: int, q: int| 0 <= p < q < m2.len() implies m2[p] != m2[q] by {
                if q == m2.len() - 1 {
                    assert(m2[p] == m[p]);
                    assert(m.contains(m[p]));
                }
            }
            if m2.contains(id) && id != ids.last() {
                let w = choose|w: int| 0 <= w < m2.len() && m2[w] == id;
                assert(m[w] == id);
            }
            if m.contains(id) {
                let w = choose|w: int| 0 <= w < m.len() && m[w] == id;
                assert(m2[w] == id);
            }
            if id == ids.last() {
                assert(m2[m.len() as int] == id);
            }
        }
    }
}

/// The structure an authored content id stands for: the player's ship, the enemy ship,
/// or the station. `None` for an id the game does not author.
pub open spec fn spec_authored_structure(id: Seq<char>) -> Option<RootKind> {
    if id == "player_ship"@ {
        Some(RootKind::PlayerShip)
    } else if id == "enemy_ship"@ {
        Some(RootKind::EnemyShip)
    } else if id == "station"@ {
        Some(RootKind::Station)
    } else {
        None
    }
}

/// Which structure to spawn for an authored content id (see [`spec_authored_structure`]).
pub fn authored_structure(id: &str) -> (r: Option<RootKind>)
    ensures
        r == spec_authored_structure(id@),
{
    let id = String::from_str(id);
    if id == String::from_str("player_ship") {
        Some(RootKind::PlayerShip)
    } else if id == String::from_str("enemy_ship") {
        Some(RootKind::EnemyShip)
    } else if id == String::from_str("station") {
        Some(RootKind::Station)
    } else {
        None
    }
}

/// Every authored content id names a structure the game can spawn, each a different one,
/// and no id is listed twice (so injection on load spawns each at most once).
pub proof fn law_authored_content_spawnable()
    ensures
        spec_authored_structure(authored_content()[0]) == Some(RootKind::PlayerShip),
        spec_authored_structure(authored_content()[1]) == Some(RootKind::EnemyShip),
        spec_authored_structure(authored_content()[2]) == Some(RootKind::Station),
        authored_content().len() == 3,
        authored_content().no_duplicates(),
{
    reveal_strlit("player_ship");
    reveal_strlit("enemy_ship");
    reveal_strlit("station");
    let a = authored_content();
    assert(a[0].len() == 11 && a[1].len() == 10 && a[2].len() == 7);
    assert(a[0] != a[1]);
    assert(a[0] != a[2]);
    assert(a[1] != a[2]);
}

} // verus!
