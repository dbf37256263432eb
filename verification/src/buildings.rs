//! Building prefabs: small character grids with palettes that stamp one
//! building into a city's house slot, and the catalog of them, pooled by
//! trade tag and settlement tier, from which a slot picks its building.

use std::collections::HashMap;

use vstd::multiset::Multiset;
use vstd::prelude::*;

use crate::text::{lemma_str_lt_irreflexive, lemma_str_lt_transitive, str_eq, str_less, str_lt};
use crate::world::TerrainKind;

verus! {

/// Settlement size: an urban blacksmith stamps a different building from
/// a village farrier, though both share the "smithy" tag.
#[derive(Clone, Copy, Debug, PartialEq, Eq, Hash, Structural)]
pub enum CityTier {
    Urban,
    Town,
    Village,
    Hamlet,
}

impl Default for CityTier {
    /// Cities without a tier are urban.
    fn default() -> (r: Self)
        ensures
            r == CityTier::Urban,
    {
        CityTier::Urban
    }
}

/// One building that stamps into a city's house slot: a grid of
/// characters, one string per row, and palettes from character to what
/// the cell holds. Palettes are keyed by the character's code point.
pub struct Prefab {
    pub tag: String,
    pub tier: CityTier,
    pub variant: String,
    pub weight: u32,
    pub size: (u16, u16),
    /// Character to terrain, for prefabs written before tag palettes.
    pub palette: HashMap<u32, TerrainKind>,
    /// Character to sprite-tag name; wins over `palette` for a character.
    pub tag_palette: HashMap<u32, String>,
    pub grid: Vec<String>,
    /// Optional roof facade layer, the size of `grid`.
    pub roof: Vec<String>,
    /// Character to roof facade sheet cell `(col, row)`.
    pub roof_palette: HashMap<u32, (u8, u8)>,
    /// Optional interior-object layer, the size of `grid`.
    pub objects: Vec<String>,
    /// Character to object-tag name.
    pub objects_palette: HashMap<u32, String>,
}

/// Character `x` of row `y` of a layer, if the layer has one there.
pub open spec fn layer_char(layer: Seq<String>, x: int, y: int) -> Option<char> {
    if 0 <= y < layer.len() && 0 <= x < layer[y]@.len() {
        Some(layer[y]@[x])
    } else {
        None
    }
}

fn layer_char_at(layer: &Vec<String>, x: u16, y: u16) -> (r: Option<char>)
    ensures
        r == layer_char(layer@, x as int, y as int),
{
    if (y as usize) < layer.len() {
        let row = layer[y as usize].as_str();
        if (x as usize) < row.unicode_len() {
            return Some(row.get_char(x as usize));
        }
    }
    None
}

/// Name a palette gives character cell `c`, if the cell exists and the
/// palette has its character.
pub open spec fn palette_name(pal: Map<u32, String>, c: Option<char>) -> Option<Seq<char>> {
    match c {
        Some(ch) => if pal.contains_key(ch as u32) {
            Some(pal[ch as u32]@)
        } else {
            None
        },
        None => None,
    }
}

/// Terrain the legacy palette gives cell `(x, y)`: none for a space, a
/// missing cell or a character the palette lacks.
pub open spec fn palette_kind(p: &Prefab, x: int, y: int) -> Option<TerrainKind> {
    match layer_char(p.grid@, x, y) {
        Some(ch) => if ch != ' ' && p.palette@.contains_key(ch as u32) {
            Some(p.palette@[ch as u32])
        } else {
            None
        },
        None => None,
    }
}

/// Roof facade cell over cell `(x, y)`: none for a space, a missing cell
/// or a character the roof palette lacks.
pub open spec fn roof_cell(p: &Prefab, x: int, y: int) -> Option<(u8, u8)> {
    match layer_char(p.roof@, x, y) {
        Some(ch) => if ch != ' ' && p.roof_palette@.contains_key(ch as u32) {
            Some(p.roof_palette@[ch as u32])
        } else {
            None
        },
        None => None,
    }
}

/// View of an optional string.
pub open spec fn opt_view(o: Option<&str>) -> Option<Seq<char>> {
    match o {
        Some(s) => Some(s@),
        None => None,
    }
}

impl Prefab {
    pub fn width(&self) -> (r: u16)
        ensures
            r == self.size.0,
    {
        self.size.0
    }

    pub fn height(&self) -> (r: u16)
        ensures
            r == self.size.1,
    {
        self.size.1
    }

    /// The sprite-tag name the terrain cell `(x, y)` takes from the tag
    /// palette, if any.
    pub fn tag_palette_name(&self, x: u16, y: u16) -> (r: Option<&str>)
        ensures
            opt_view(r) == palette_name(self.tag_palette@, layer_char(self.grid@, x as int, y as int)),
    {
        match layer_char_at(&self.grid, x, y) {
            Some(ch) => match self.tag_palette.get(&(ch as u32)) {
                Some(s) => Some(s.as_str()),
                None => None,
            },
            None => None,
        }
    }

    /// The object-tag name of cell `(x, y)` of the objects layer, if any.
    pub fn objects_palette_name(&self, x: u16, y: u16) -> (r: Option<&str>)
        ensures
            opt_view(r) == palette_name(self.objects_palette@, layer_char(self.objects@, x as int, y as int)),
    {
        match layer_char_at(&self.objects, x, y) {
            Some(ch) => match self.objects_palette.get(&(ch as u32)) {
                Some(s) => Some(s.as_str()),
                None => None,
            },
            None => None,
        }
    }

    /// The roof facade cell over cell `(x, y)`: `None` for a space, a
    /// character the roof palette lacks, or no roof layer there.
    pub fn roof_at(&self, x: u16, y: u16) -> (r: Option<(u8, u8)>)
        ensures
            r == roof_cell(self, x as int, y as int),
    {
        match layer_char_at(&self.roof, x, y) {
            Some(ch) => {
                if ch == ' ' {
                    return None;
                }
                match self.roof_palette.get(&(ch as u32)) {
                    Some(v) => Some(*v),
                    None => None,
                }
            },
            None => None,
        }
    }

    /// The terrain the legacy palette gives cell `(x, y)`: `None` for a
    /// space or a character it lacks.
    pub fn palette_cell(&self, x: u16, y: u16) -> (r: Option<TerrainKind>)
        ensures
            r == palette_kind(self, x as int, y as int),
    {
        match layer_char_at(&self.grid, x, y) {
            Some(ch) => {
                if ch == ' ' {
                    return None;
                }
                match self.palette.get(&(ch as u32)) {
                    Some(v) => Some(*v),
                    None => None,
                }
            },
            None => None,
        }
    }
}

/// The part of a sprite tag's role that stamping reads: terrain, walkable
/// or not, or anything else (a light, a decoration, a work station).
#[derive(Clone, Copy, Debug, PartialEq, Eq, Structural)]
pub enum TagRole {
    Terrain { passable: bool },
    Other,
}

/// The sprite-tag catalog's names and roles.
pub struct TagCatalog {
    pub tags: Vec<(String, TagRole)>,
}

/// Role of the first tag named `name` in `tags`, if any.
pub open spec fn role_of(tags: Seq<(String, TagRole)>, name: Seq<char>) -> Option<TagRole>
    decreases tags.len(),
{
    if tags.len() == 0 {
        None
    } else if tags[0].0@ == name {
        Some(tags[0].1)
    } else {
        role_of(tags.drop_first(), name)
    }
}

/// Position of the first tag named `name` in `tags`, if any.
pub open spec fn tag_index(tags: Seq<(String, TagRole)>, name: Seq<char>) -> Option<int>
    decreases tags.len(),
{
    if tags.len() == 0 {
        None
    } else if tags[0].0@ == name {
        Some(0)
    } else {
        match tag_index(tags.drop_first(), name) {
            Some(i) => Some(i + 1),
            None => None,
        }
    }
}

/// The tag `tag_index` finds lies in the catalog and carries the name.
proof fn lemma_tag_index(tags: Seq<(String, TagRole)>, name: Seq<char>)
    ensures
        tag_index(tags, name) matches Some(i) ==> 0 <= i < tags.len() && tags[i].0@ == name && role_of(tags, name)
            == Some(tags[i].1),
        tag_index(tags, name) is None ==> role_of(tags, name) is None,
    decreases tags.len(),
{
    if tags.len() > 0 && tags[0].0@ != name {
        lemma_tag_index(tags.drop_first(), name);
    }
}

impl TagCatalog {
    /// Position of the first tag named `name`, if the catalog has one.
    pub fn index_of(&self, name: &str) -> (r: Option<usize>)
        ensures
            r matches Some(i) ==> tag_index(self.tags@, name@) == Some(i as int),
            r is None ==> tag_index(self.tags@, name@) is None,
    {
        let mut i: usize = 0;
        assert(self.tags@.skip(0) =~= self.tags@);
        while i < self.tags.len()
            invariant
                i <= self.tags@.len(),
                forall|j: int| 0 <= j < i ==> self.tags@[j].0@ != name@,
                tag_index(self.tags@, name@) == (match tag_index(self.tags@.skip(i as int), name@) {
                    Some(k) => Some(k + i),
                    None => None,
                }),
            decreases self.tags@.len() - i,
        {
            assert(self.tags@.skip(i as int).drop_first() =~= self.tags@.skip(i + 1));
            if str_eq(self.tags[i].0.as_str(), name) {
                return Some(i);
            }
            i += 1;
        }
        None
    }

    /// Role of the tag named `name`, if the catalog has one.
    pub fn role(&self, name: &str) -> (r: Option<TagRole>)
        ensures
            r == role_of(self.tags@, name@),
    {
        let mut i: usize = 0;
        assert(self.tags@.skip(0) =~= self.tags@);
        while i < self.tags.len()
            invariant
                i <= self.tags@.len(),
                role_of(self.tags@, name@) == role_of(self.tags@.skip(i as int), name@),
            decreases self.tags@.len() - i,
        {
            assert(self.tags@.skip(i as int).drop_first() =~= self.tags@.skip(i + 1));
            if str_eq(self.tags[i].0.as_str(), name) {
                return Some(self.tags[i].1);
            }
            i += 1;
        }
        None
    }
}

/// Terrain a prefab stamps at grid cell `(x, y)`: nothing for a space or
/// a missing cell; for a tag-palette character, floor for a walkable
/// terrain tag, solid for any other known tag, nothing for an unknown
/// one; else the legacy palette's terrain, if it has the character.
pub open spec fn prefab_cell(p: &Prefab, tags: Seq<(String, TagRole)>, x: int, y: int) -> Option<TerrainKind> {
    match layer_char(p.grid@, x, y) {
        None => None,
        Some(ch) => if ch == ' ' {
            None
        } else if p.tag_palette@.contains_key(ch as u32) {
            match role_of(tags, p.tag_palette@[ch as u32]@) {
                None => None,
                Some(TagRole::Terrain { passable: true }) => Some(TerrainKind::Floor),
                Some(_) => Some(TerrainKind::Solid),
            }
        } else if p.palette@.contains_key(ch as u32) {
            Some(p.palette@[ch as u32])
        } else {
            None
        },
    }
}

/// What a prefab cell resolves to: the terrain it stamps and, for a
/// tag-palette character, the position in the tag catalog of the tag
/// whose sprite the cell is drawn with (see `prefab_cell`).
pub open spec fn prefab_resolve(p: &Prefab, tags: Seq<(String, TagRole)>, x: int, y: int) -> Option<
    (TerrainKind, Option<int>),
> {
    match layer_char(p.grid@, x, y) {
        None => None,
        Some(ch) => if ch == ' ' {
            None
        } else if p.tag_palette@.contains_key(ch as u32) {
            match tag_index(tags, p.tag_palette@[ch as u32]@) {
                None => None,
                Some(i) => Some(
                    (
                        if tags[i].1 == (TagRole::Terrain { passable: true }) {
                            TerrainKind::Floor
                        } else {
                            TerrainKind::Solid
                        },
                        Some(i),
                    ),
                ),
            }
        } else if p.palette@.contains_key(ch as u32) {
            Some((p.palette@[ch as u32], None))
        } else {
            None
        },
    }
}

impl Prefab {
    /// Grid cell `(x, y)` resolved: its terrain, and the catalog position
    /// of the tag that gives its sprite (see `prefab_resolve`). The
    /// terrain is the one `cell_at` gives.
    pub fn resolve_cell(&self, x: u16, y: u16, tags: &TagCatalog) -> (r: Option<(TerrainKind, Option<usize>)>)
        ensures
            match r {
                None => prefab_resolve(self, tags.tags@, x as int, y as int) is None,
                Some((t, None)) => prefab_resolve(self, tags.tags@, x as int, y as int) == Some((t, None::<int>)),
                Some((t, Some(i))) => prefab_resolve(self, tags.tags@, x as int, y as int) == Some((t, Some(i as int))),
            },
            (match r {
                Some((t, _)) => Some(t),
                None => None,
            }) == prefab_cell(self, tags.tags@, x as int, y as int),
    {
        proof {
            match layer_char(self.grid@, x as int, y as int) {
                Some(ch) => if self.tag_palette@.contains_key(ch as u32) {
                    lemma_tag_index(tags.tags@, self.tag_palette@[ch as u32]@);
                },
                None => {},
            }
        }
        match layer_char_at(&self.grid, x, y) {
            None => None,
            Some(ch) => {
                if ch == ' ' {
                    return None;
                }
                match self.tag_palette.get(&(ch as u32)) {
                    Some(name) => match tags.index_of(name.as_str()) {
                        None => None,
                        Some(i) => {
                            let kind = match tags.tags[i].1 {
                                TagRole::Terrain { passable: true } => TerrainKind::Floor,
                                _ => TerrainKind::Solid,
                            };
                            Some((kind, Some(i)))
                        },
                    },
                    None => match self.palette.get(&(ch as u32)) {
                        Some(t) => Some((*t, None)),
                        None => None,
                    },
                }
            },
        }
    }

    /// The terrain this prefab stamps at grid cell `(x, y)` (see
    /// `prefab_cell`); `None` means leave the cell as it is.
    pub fn cell_at(&self, x: u16, y: u16, tags: &TagCatalog) -> (r: Option<TerrainKind>)
        ensures
            r == prefab_cell(self, tags.tags@, x as int, y as int),
    {
        match layer_char_at(&self.grid, x, y) {
            None => None,
            Some(ch) => {
                if ch == ' ' {
                    return None;
                }
                match self.tag_palette.get(&(ch as u32)) {
                    Some(name) => match tags.role(name.as_str()) {
                        None => None,
                        Some(TagRole::Terrain { passable: true }) => Some(TerrainKind::Floor),
                        Some(_) => Some(TerrainKind::Solid),
                    },
                    None => match self.palette.get(&(ch as u32)) {
                        Some(t) => Some(*t),
                        None => None,
                    },
                }
            },
        }
    }
}

/// Sum of the weights of the first `n` prefabs.
pub open spec fn pool_weight(pool: Seq<Prefab>, n: int) -> int
    decreases n,
{
    if n <= 0 {
        0
    } else {
        pool_weight(pool, n - 1) + pool[n - 1].weight
    }
}

/// Prefab a roll lands on, searching from prefab `k`: the first whose
/// running weight sum exceeds `roll` (the pool's length when none does).
pub open spec fn variant_index(pool: Seq<Prefab>, roll: int, k: int) -> int
    decreases pool.len() - k,
{
    if k >= pool.len() || k < 0 {
        pool.len() as int
    } else if roll < pool_weight(pool, k + 1) {
        k
    } else {
        variant_index(pool, roll, k + 1)
    }
}

proof fn lemma_variant_index(pool: Seq<Prefab>, roll: int, k: int, j: int)
    requires
        0 <= j <= k < pool.len(),
        pool_weight(pool, k) <= roll < pool_weight(pool, k + 1),
    ensures
        variant_index(pool, roll, j) == k,
    decreases k - j,
{
    if j < k {
        lemma_pool_weight_monotone(pool, j + 1, k);
        lemma_variant_index(pool, roll, k, j + 1);
    }
}

proof fn lemma_pool_weight_monotone(pool: Seq<Prefab>, m: int, n: int)
    requires
        0 <= m <= n,
    ensures
        pool_weight(pool, m) <= pool_weight(pool, n),
    decreases n - m,
{
    if m < n {
        lemma_pool_weight_monotone(pool, m, n - 1);
    }
}

/// All bundled prefabs, one pool per `(tag, tier)`, each pool sorted by
/// variant so weighted picks walk it the same way on every host.
pub struct BuildingCatalog {
    pub pools: Vec<((String, CityTier), Vec<Prefab>)>,
}

/// Position of the first pool keyed `(tag, tier)`; the number of pools
/// when there is none.
pub open spec fn pool_pos(pools: Seq<((String, CityTier), Vec<Prefab>)>, tag: Seq<char>, tier: CityTier) -> int
    decreases pools.len(),
{
    if pools.len() == 0 || (pools[0].0.0@ == tag && pools[0].0.1 == tier) {
        0
    } else {
        1 + pool_pos(pools.drop_first(), tag, tier)
    }
}

proof fn lemma_pool_pos_skip(pools: Seq<((String, CityTier), Vec<Prefab>)>, tag: Seq<char>, tier: CityTier, i: int)
    requires
        0 <= i <= pools.len(),
        forall|j: int| 0 <= j < i ==> !((#[trigger] pools[j]).0.0@ == tag && pools[j].0.1 == tier),
    ensures
        pool_pos(pools, tag, tier) == i + pool_pos(pools.skip(i), tag, tier),
    decreases i,
{
    if i == 0 {
        assert(pools.skip(0) =~= pools);
    } else {
        assert(!(pools[0].0.0@ == tag && pools[0].0.1 == tier));
        assert forall|j: int| 0 <= j < i - 1 implies !((#[trigger] pools.drop_first()[j]).0.0@ == tag
            && pools.drop_first()[j].0.1 == tier) by {
            assert(pools.drop_first()[j] == pools[j + 1]);
        }
        lemma_pool_pos_skip(pools.drop_first(), tag, tier, i - 1);
        assert(pools.drop_first().skip(i - 1) =~= pools.skip(i));
    }
}

/// Pool key of a prefab: its trade tag and tier.
pub open spec fn key_of(q: Prefab) -> (Seq<char>, CityTier) {
    (q.tag@, q.tier)
}

/// Key of a catalog entry.
pub open spec fn entry_key(e: ((String, CityTier), Vec<Prefab>)) -> (Seq<char>, CityTier) {
    (e.0.0@, e.0.1)
}

/// The prefabs of `s` keyed `key`, with their multiplicities.
pub open spec fn keyed(s: Seq<Prefab>, key: (Seq<char>, CityTier)) -> Multiset<Prefab>
    decreases s.len(),
{
    if s.len() == 0 {
        Multiset::empty()
    } else {
        let m = keyed(s.drop_last(), key);
        if key_of(s.last()) == key {
            m.insert(s.last())
        } else {
            m
        }
    }
}

/// No later prefab of the pool sorts strictly before an earlier one by
/// variant.
pub open spec fn sorted_by_variant(pool: Seq<Prefab>) -> bool {
    forall|i: int, j: int| 0 <= i < j < pool.len() ==> !str_lt(#[trigger] pool[j].variant@, #[trigger] pool[i].variant@)
}

/// `pools` catalogs the prefabs of `input`: the keys are distinct, every
/// prefab of `input` has its key's pool, and each pool holds exactly the
/// prefabs of `input` with its key, as many times as `input` does, sorted
/// by variant.
pub open spec fn catalogs(input: Seq<Prefab>, pools: Seq<((String, CityTier), Vec<Prefab>)>) -> bool {
    &&& forall|a: int, b: int|
        0 <= a < b < pools.len() ==> entry_key(#[trigger] pools[a]) != entry_key(#[trigger] pools[b])
    &&& forall|i: int|
        0 <= i < input.len() ==> exists|a: int| 0 <= a < pools.len() && #[trigger] entry_key(pools[a]) == key_of(#[trigger] input[i])
    &&& forall|a: int|
        0 <= a < pools.len() ==> {
            &&& (#[trigger] pools[a]).1@.to_multiset() == keyed(input, entry_key(pools[a]))
            &&& sorted_by_variant(pools[a].1@)
        }
}

/// Position of the first prefab of `s` keyed `key`; `s.len()` when none
/// is.
pub open spec fn first_of(s: Seq<Prefab>, key: (Seq<char>, CityTier)) -> int
    decreases s.len(),
{
    if s.len() == 0 {
        0
    } else {
        let f = first_of(s.drop_last(), key);
        if f < s.len() - 1 {
            f
        } else if key_of(s.last()) == key {
            s.len() - 1
        } else {
            s.len() as int
        }
    }
}

/// The pools come in the order their keys first appear in `input`.
pub open spec fn pools_in_order(input: Seq<Prefab>, pools: Seq<((String, CityTier), Vec<Prefab>)>) -> bool {
    &&& forall|a: int| 0 <= a < pools.len() ==> first_of(input, entry_key(#[trigger] pools[a])) < input.len()
    &&& forall|a: int, b: int|
        0 <= a < b < pools.len() ==> first_of(input, entry_key(#[trigger] pools[a])) < first_of(
            input,
            entry_key(#[trigger] pools[b]),
        )
}

proof fn lemma_first_of_push(s: Seq<Prefab>, q: Prefab, key: (Seq<char>, CityTier))
    ensures
        first_of(s.push(q), key) == if first_of(s, key) < s.len() {
            first_of(s, key)
        } else if key_of(q) == key {
            s.len() as int
        } else {
            s.len() + 1int
        },
{
    assert(s.push(q).drop_last() =~= s);
    lemma_first_of_bound(s, key);
}

proof fn lemma_first_of_found(s: Seq<Prefab>, key: (Seq<char>, CityTier))
    ensures
        first_of(s, key) < s.len() ==> key_of(s[first_of(s, key)]) == key,
    decreases s.len(),
{
    if s.len() > 0 {
        lemma_first_of_found(s.drop_last(), key);
        lemma_first_of_bound(s.drop_last(), key);
        let f = first_of(s.drop_last(), key);
        if f < s.len() - 1 {
            assert(s.drop_last()[f] == s[f]);
        }
    }
}

proof fn lemma_first_of_bound(s: Seq<Prefab>, key: (Seq<char>, CityTier))
    ensures
        0 <= first_of(s, key) <= s.len(),
    decreases s.len(),
{
    if s.len() > 0 {
        lemma_first_of_bound(s.drop_last(), key);
    }
}

proof fn lemma_keyed_none(s: Seq<Prefab>, key: (Seq<char>, CityTier))
    requires
        forall|i: int| 0 <= i < s.len() ==> key_of(#[trigger] s[i]) != key,
    ensures
        keyed(s, key) == Multiset::<Prefab>::empty(),
    decreases s.len(),
{
    if s.len() > 0 {
        lemma_keyed_none(s.drop_last(), key);
    }
}

proof fn lemma_multiset_insert_at(s: Seq<Prefab>, pos: int, q: Prefab)
    requires
        0 <= pos <= s.len(),
    ensures
        s.insert(pos, q).to_multiset() == s.to_multiset().insert(q),
{
    broadcast use vstd::seq_lib::group_to_multiset_ensures, vstd::multiset::group_multiset_axioms;

    let t = s.insert(pos, q);
    assert(t.remove(pos) =~= s);
    assert(t[pos] == q);
    assert(t.contains(q));
    assert(t.to_multiset().count(q) > 0);
    assert(t.to_multiset() =~= t.to_multiset().remove(q).insert(q));
}

proof fn lemma_sorted_insert(pool: Seq<Prefab>, pos: int, q: Prefab)
    requires
        sorted_by_variant(pool),
        0 <= pos <= pool.len(),
        forall|i: int| 0 <= i < pos ==> !str_lt(q.variant@, #[trigger] pool[i].variant@),
        pos < pool.len() ==> str_lt(q.variant@, pool[pos].variant@),
    ensures
        sorted_by_variant(pool.insert(pos, q)),
{
    let t = pool.insert(pos, q);
    assert forall|i: int, j: int| 0 <= i < j < t.len() implies !str_lt(#[trigger] t[j].variant@, #[trigger] t[i].variant@) by {
        if j == pos {
            assert(t[i] == pool[i]);
            assert(!str_lt(q.variant@, pool[i].variant@));
        } else if i == pos {
            assert(t[j] == pool[j - 1]);
            if j - 1 > pos {
                assert(!str_lt(pool[j - 1].variant@, pool[pos].variant@));
            }
            if str_lt(pool[j - 1].variant@, q.variant@) {
                lemma_str_lt_transitive(pool[j - 1].variant@, q.variant@, pool[pos].variant@);
                lemma_str_lt_irreflexive(pool[pos].variant@);
            }
        } else {
            let ii = if i < pos { i } else { i - 1 };
            let jj = if j < pos { j } else { j - 1 };
            assert(t[i] == pool[ii]);
            assert(t[j] == pool[jj]);
        }
    }
}

/// The prefabs of `s` keyed `key` whose variant is `v`, in their order
/// in `s`.
pub open spec fn keyed_variant(s: Seq<Prefab>, key: (Seq<char>, CityTier), v: Seq<char>) -> Seq<Prefab>
    decreases s.len(),
{
    if s.len() == 0 {
        Seq::empty()
    } else {
        let r = keyed_variant(s.drop_last(), key, v);
        if key_of(s.last()) == key && s.last().variant@ == v {
            r.push(s.last())
        } else {
            r
        }
    }
}

/// Each pool keeps the prefabs of one variant in the order `input` has
/// them.
pub open spec fn stable_pools(input: Seq<Prefab>, pools: Seq<((String, CityTier), Vec<Prefab>)>) -> bool {
    forall|a: int, v: Seq<char>|
        0 <= a < pools.len() ==> #[trigger] keyed_variant(pools[a].1@, entry_key(pools[a]), v) == keyed_variant(
            input,
            entry_key(pools[a]),
            v,
        )
}

proof fn lemma_keyed_variant_add(a: Seq<Prefab>, b: Seq<Prefab>, key: (Seq<char>, CityTier), v: Seq<char>)
    ensures
        keyed_variant(a + b, key, v) == keyed_variant(a, key, v) + keyed_variant(b, key, v),
    decreases b.len(),
{
    if b.len() == 0 {
        assert(a + b =~= a);
        assert(keyed_variant(a, key, v) + keyed_variant(b, key, v) =~= keyed_variant(a, key, v));
    } else {
        lemma_keyed_variant_add(a, b.drop_last(), key, v);
        assert((a + b).drop_last() =~= a + b.drop_last());
        assert((a + b).last() == b.last());
        if key_of(b.last()) == key && b.last().variant@ == v {
            assert(keyed_variant(a + b, key, v) =~= keyed_variant(a, key, v) + keyed_variant(b, key, v));
        } else {
            assert(keyed_variant(a + b, key, v) =~= keyed_variant(a, key, v) + keyed_variant(b, key, v));
        }
    }
}

proof fn lemma_keyed_variant_none(s: Seq<Prefab>, key: (Seq<char>, CityTier), v: Seq<char>)
    requires
        forall|i: int| 0 <= i < s.len() ==> !(key_of(#[trigger] s[i]) == key && s[i].variant@ == v),
    ensures
        keyed_variant(s, key, v) == Seq::<Prefab>::empty(),
    decreases s.len(),
{
    if s.len() > 0 {
        assert forall|i: int| 0 <= i < s.drop_last().len() implies !(key_of(#[trigger] s.drop_last()[i]) == key
            && s.drop_last()[i].variant@ == v) by {
            assert(s.drop_last()[i] == s[i]);
        }
        lemma_keyed_variant_none(s.drop_last(), key, v);
        assert(s.last() == s[s.len() - 1]);
    }
}

proof fn lemma_keyed_variant_single(q: Prefab, key: (Seq<char>, CityTier), v: Seq<char>)
    ensures
        keyed_variant(seq![q], key, v) == if key_of(q) == key && q.variant@ == v {
            seq![q]
        } else {
            Seq::<Prefab>::empty()
        },
{
    assert(seq![q].drop_last() =~= Seq::<Prefab>::empty());
    assert(keyed_variant(Seq::<Prefab>::empty(), key, v) == Seq::<Prefab>::empty());
    assert(seq![q].last() == q);
    assert(Seq::<Prefab>::empty().push(q) =~= seq![q]);
}

/// Inserting `q` after every prefab of its variant appends it to the
/// run of its variant and leaves the other runs alone.
proof fn lemma_stable_insert(pool: Seq<Prefab>, pos: int, q: Prefab, key: (Seq<char>, CityTier), v: Seq<char>)
    requires
        sorted_by_variant(pool),
        0 <= pos <= pool.len(),
        pos < pool.len() ==> str_lt(q.variant@, pool[pos].variant@),
        key_of(q) == key,
    ensures
        keyed_variant(pool.insert(pos, q), key, v) == if q.variant@ == v {
            keyed_variant(pool, key, v).push(q)
        } else {
            keyed_variant(pool, key, v)
        },
{
    let head = pool.take(pos);
    let tail = pool.skip(pos);
    assert(pool =~= head + tail);
    assert(pool.insert(pos, q) =~= head + seq![q] + tail);
    lemma_keyed_variant_add(head, tail, key, v);
    lemma_keyed_variant_add(head + seq![q], tail, key, v);
    lemma_keyed_variant_add(head, seq![q], key, v);
    lemma_keyed_variant_single(q, key, v);
    if q.variant@ == v {
        assert forall|i: int| 0 <= i < tail.len() implies !(key_of(#[trigger] tail[i]) == key && tail[i].variant@
            == v) by {
            assert(tail[i] == pool[pos + i]);
            if pool[pos + i].variant@ == v {
                if i > 0 {
                    assert(!str_lt(pool[pos + i].variant@, pool[pos].variant@));
                } else {
                    lemma_str_lt_irreflexive(v);
                }
            }
        }
        lemma_keyed_variant_none(tail, key, v);
        assert(keyed_variant(head, key, v) + seq![q] + Seq::<Prefab>::empty() =~= keyed_variant(head, key, v).push(q));
        assert(keyed_variant(head, key, v) + Seq::<Prefab>::empty() =~= keyed_variant(head, key, v));
    } else {
        assert(keyed_variant(head, key, v) + Seq::<Prefab>::empty() =~= keyed_variant(head, key, v));
    }
}

proof fn lemma_keyed_count(s: Seq<Prefab>, key: (Seq<char>, CityTier), i: int)
    requires
        0 <= i < s.len(),
        key_of(s[i]) == key,
    ensures
        keyed(s, key).count(s[i]) > 0,
    decreases s.len(),
{
    broadcast use vstd::multiset::group_multiset_axioms;

    if i < s.len() - 1 {
        assert(s.drop_last()[i] == s[i]);
        lemma_keyed_count(s.drop_last(), key, i);
    }
}

proof fn lemma_pool_pos_found(pools: Seq<((String, CityTier), Vec<Prefab>)>, key: (Seq<char>, CityTier), a: int)
    requires
        0 <= a < pools.len(),
        entry_key(pools[a]) == key,
    ensures
        0 <= pool_pos(pools, key.0, key.1) <= a,
        entry_key(pools[pool_pos(pools, key.0, key.1)]) == key,
    decreases a,
{
    if !(pools[0].0.0@ == key.0 && pools[0].0.1 == key.1) {
        assert(pool_pos(pools, key.0, key.1) == 1 + pool_pos(pools.drop_first(), key.0, key.1));
        assert(pools.drop_first()[a - 1] == pools[a]);
        lemma_pool_pos_found(pools.drop_first(), key, a - 1);
        assert(pools.drop_first()[pool_pos(pools.drop_first(), key.0, key.1)] == pools[pool_pos(pools, key.0, key.1)]);
    }
}

/// Every prefab of a catalog's input sits in the pool that `pool` and
/// `pick_variant` look up for its tag and tier.
pub proof fn law_loaded_prefab_in_its_pool(input: Seq<Prefab>, pools: Seq<((String, CityTier), Vec<Prefab>)>, i: int)
    requires
        catalogs(input, pools),
        0 <= i < input.len(),
    ensures
        pool_pos(pools, input[i].tag@, input[i].tier) < pools.len(),
        pools[pool_pos(pools, input[i].tag@, input[i].tier)].1@.contains(input[i]),
{
    broadcast use vstd::seq_lib::group_to_multiset_ensures;

    let key = key_of(input[i]);
    let a = choose|a: int| 0 <= a < pools.len() && #[trigger] entry_key(pools[a]) == key_of(input[i]);
    lemma_pool_pos_found(pools, key, a);
    let p = pool_pos(pools, key.0, key.1);
    if p != a {
        if p < a {
            assert(entry_key(pools[p]) != entry_key(pools[a]));
        }
    }
    lemma_keyed_count(input, key, i);
    assert(pools[a].1@.to_multiset().count(input[i]) > 0);
}

impl BuildingCatalog {
    /// Position of the pool for `(tag, tier)`, if there is one.
    fn find_pool(&self, tag: &str, tier: CityTier) -> (r: Option<usize>)
        ensures
            match r {
                Some(i) => i == pool_pos(self.pools@, tag@, tier) && i < self.pools@.len() && self.pools@[i as int].0.0@
                    == tag@ && self.pools@[i as int].0.1 == tier,
                None => pool_pos(self.pools@, tag@, tier) == self.pools@.len() && forall|j: int|
                    0 <= j < self.pools@.len() ==> !((#[trigger] self.pools@[j]).0.0@ == tag@ && self.pools@[j].0.1
                        == tier),
            },
    {
        let mut i: usize = 0;
        while i < self.pools.len()
            invariant
                i <= self.pools@.len(),
                forall|j: int|
                    0 <= j < i ==> !((#[trigger] self.pools@[j]).0.0@ == tag@ && self.pools@[j].0.1 == tier),
            decreases self.pools@.len() - i,
        {
            if self.pools[i].0.1 == tier && str_eq(self.pools[i].0.0.as_str(), tag) {
                proof {
                    lemma_pool_pos_skip(self.pools@, tag@, tier, i as int);
                }
                return Some(i);
            }
            i += 1;
        }
        proof {
            lemma_pool_pos_skip(self.pools@, tag@, tier, i as int);
            assert(self.pools@.skip(i as int).len() == 0);
        }
        None
    }

    /// The catalog of `prefabs`, each checked first: the first prefab
    /// that fails `validate_prefab`, by position, with its defect; else
    /// one pool per `(tag, tier)` in order of first appearance, each
    /// sorted by variant with equal variants in input order.
    pub fn load(prefabs: Vec<Prefab>) -> (r: Result<BuildingCatalog, (usize, PrefabDefect)>)
        ensures
            match r {
                Ok(cat) => (forall|i: int| 0 <= i < prefabs@.len() ==> prefab_ok(&#[trigger] prefabs@[i]))
                    && catalogs(prefabs@, cat.pools@) && pools_in_order(prefabs@, cat.pools@) && stable_pools(
                    prefabs@,
                    cat.pools@,
                ),
                Err((i, d)) => {
                    &&& i < prefabs@.len()
                    &&& forall|j: int| 0 <= j < i ==> prefab_ok(&#[trigger] prefabs@[j])
                    &&& !prefab_ok(&prefabs@[i as int])
                    &&& earlier_ok(&prefabs@[i as int], defect_layer(d))
                    &&& first_in_layer(&prefabs@[i as int], d)
                },
            },
    {
        let ghost input = prefabs@;
        assert(input.len() == prefabs.len());
        let mut rest = prefabs;
        let mut cat = BuildingCatalog { pools: Vec::new() };
        let mut k: usize = 0;
        while rest.len() > 0
            invariant
                k <= input.len(),
                input.len() <= usize::MAX,
                input == prefabs@,
                rest@ == input.skip(k as int),
                forall|j: int| 0 <= j < k ==> prefab_ok(&#[trigger] input[j]),
                catalogs(input.take(k as int), cat.pools@),
                pools_in_order(input.take(k as int), cat.pools@),
                stable_pools(input.take(k as int), cat.pools@),
            decreases rest@.len(),
        {
            let ghost before = cat.pools@;
            let ghost done = input.take(k as int);
            assert(rest@[0] == input[k as int]);
            let q = rest.remove(0);
            assert(rest@ =~= input.skip(k + 1));
            match validate_prefab(&q) {
                Err(d) => return Err((k, d)),
                Ok(()) => {},
            }
            let ghost key = key_of(q);
            let ghost grown = input.take(k + 1);
            assert(grown.drop_last() =~= done);
            assert(grown.last() == q);
            match cat.find_pool(q.tag.as_str(), q.tier) {
                Some(a) => {
                    let mut pos: usize = 0;
                    let ghost pool = cat.pools@[a as int].1@;
                    while pos < cat.pools[a].1.len()
                        invariant
                            a < cat.pools@.len(),
                            pool == cat.pools@[a as int].1@,
                            pos <= pool.len(),
                            forall|i: int| 0 <= i < pos ==> !str_lt(q.variant@, #[trigger] pool[i].variant@),
                        ensures
                            a < cat.pools@.len(),
                            pool == cat.pools@[a as int].1@,
                            pos <= pool.len(),
                            forall|i: int| 0 <= i < pos ==> !str_lt(q.variant@, #[trigger] pool[i].variant@),
                            pos < pool.len() ==> str_lt(q.variant@, pool[pos as int].variant@),
                        decreases pool.len() - pos,
                    {
                        if str_less(q.variant.as_str(), cat.pools[a].1[pos].variant.as_str()) {
                            break;
                        }
                        pos += 1;
                    }
                    proof {
                        lemma_sorted_insert(pool, pos as int, q);
                        lemma_multiset_insert_at(pool, pos as int, q);
                    }
                    let mut entry = cat.pools.remove(a);
                    entry.1.insert(pos, q);
                    cat.pools.insert(a, entry);
                    proof {
                        let after = cat.pools@;
                        assert(after =~= before.update(a as int, after[a as int]));
                        assert forall|b: int| 0 <= b < after.len() implies {
                            &&& (#[trigger] after[b]).1@.to_multiset() == keyed(grown, entry_key(after[b]))
                            &&& sorted_by_variant(after[b].1@)
                        } by {
                            if b != a {
                                assert(after[b] == before[b]);
                                assert(entry_key(before[b]) != key);
                            }
                        }
                        assert forall|i: int| 0 <= i < grown.len() implies exists|c: int|
                            0 <= c < after.len() && #[trigger] entry_key(after[c]) == key_of(#[trigger] grown[i]) by {
                            if i < k {
                                assert(grown[i] == done[i]);
                                let c = choose|c: int| 0 <= c < before.len() && #[trigger] entry_key(before[c]) == key_of(done[i]);
                                assert(entry_key(after[c]) == entry_key(before[c]));
                            } else {
                                assert(entry_key(after[a as int]) == key_of(grown[i]));
                            }
                        }
                        assert forall|b: int, c: int| 0 <= b < c < after.len() implies entry_key(#[trigger] after[b])
                            != entry_key(#[trigger] after[c]) by {
                            assert(entry_key(after[b]) == entry_key(before[b]));
                            assert(entry_key(after[c]) == entry_key(before[c]));
                        }
                        assert forall|b: int| 0 <= b < after.len() implies first_of(grown, entry_key(#[trigger] after[b]))
                            == first_of(done, entry_key(before[b])) by {
                            assert(entry_key(after[b]) == entry_key(before[b]));
                            lemma_first_of_push(done, q, entry_key(before[b]));
                        }
                        assert forall|b: int, v: Seq<char>| 0 <= b < after.len() implies #[trigger] keyed_variant(
                            after[b].1@,
                            entry_key(after[b]),
                            v,
                        ) == keyed_variant(grown, entry_key(after[b]), v) by {
                            if b == a {
                                lemma_stable_insert(pool, pos as int, q, key, v);
                                assert(keyed_variant(pool, key, v) == keyed_variant(done, key, v));
                            } else {
                                assert(after[b] == before[b]);
                                assert(entry_key(before[b]) != key);
                                assert(keyed_variant(before[b].1@, entry_key(before[b]), v) == keyed_variant(
                                    done,
                                    entry_key(before[b]),
                                    v,
                                ));
                            }
                        }
                    }
                },
                None => {
                    let tag = q.tag.clone();
                    let tier = q.tier;
                    let mut pool: Vec<Prefab> = Vec::new();
                    proof {
                        lemma_multiset_insert_at(pool@, 0, q);
                        assert(pool@.insert(0, q) =~= seq![q]);
                    }
                    pool.push(q);
                    assert(pool@ =~= seq![q]);
                    cat.pools.push(((tag, tier), pool));
                    proof {
                        let after = cat.pools@;
                        let n = before.len() as int;
                        assert forall|i: int| 0 <= i < done.len() implies key_of(#[trigger] done[i]) != key by {
                            let c = choose|c: int| 0 <= c < before.len() && #[trigger] entry_key(before[c]) == key_of(done[i]);
                            assert(!(before[c].0.0@ == key.0 && before[c].0.1 == key.1));
                        }
                        lemma_keyed_none(done, key);
                        assert(Seq::<Prefab>::empty().to_multiset() =~= Multiset::<Prefab>::empty()) by {
                            broadcast use vstd::seq_lib::group_to_multiset_ensures, vstd::multiset::group_multiset_axioms;
                        }
                        assert(Seq::<Prefab>::empty().insert(0, q) =~= seq![q]);
                        assert(entry_key(after[n]) == key);
                        assert forall|b: int| 0 <= b < after.len() implies {
                            &&& (#[trigger] after[b]).1@.to_multiset() == keyed(grown, entry_key(after[b]))
                            &&& sorted_by_variant(after[b].1@)
                        } by {
                            if b < n {
                                assert(after[b] == before[b]);
                                assert(entry_key(before[b]) != key);
                            }
                        }
                        assert forall|i: int| 0 <= i < grown.len() implies exists|c: int|
                            0 <= c < after.len() && #[trigger] entry_key(after[c]) == key_of(#[trigger] grown[i]) by {
                            if i < k {
                                assert(grown[i] == done[i]);
                                let c = choose|c: int| 0 <= c < before.len() && #[trigger] entry_key(before[c]) == key_of(done[i]);
                                assert(after[c] == before[c]);
                            } else {
                                assert(entry_key(after[n]) == key_of(grown[i]));
                            }
                        }
                        assert forall|b: int, c: int| 0 <= b < c < after.len() implies entry_key(#[trigger] after[b])
                            != entry_key(#[trigger] after[c]) by {
                            if c == n {
                                assert(after[b] == before[b]);
                            } else {
                                assert(after[b] == before[b]);
                                assert(after[c] == before[c]);
                            }
                        }
                        lemma_first_of_found(done, key);
                        lemma_first_of_bound(done, key);
                        if first_of(done, key) < done.len() {
                            assert(key_of(done[first_of(done, key)]) != key);
                        }
                        lemma_first_of_push(done, q, key);
                        assert(first_of(grown, key) == k);
                        assert forall|b: int| 0 <= b < n implies first_of(grown, entry_key(#[trigger] after[b]))
                            == first_of(done, entry_key(before[b])) by {
                            assert(after[b] == before[b]);
                            lemma_first_of_push(done, q, entry_key(before[b]));
                        }
                        assert forall|b: int, v: Seq<char>| 0 <= b < after.len() implies #[trigger] keyed_variant(
                            after[b].1@,
                            entry_key(after[b]),
                            v,
                        ) == keyed_variant(grown, entry_key(after[b]), v) by {
                            if b == n {
                                lemma_keyed_variant_single(q, key, v);
                                lemma_keyed_variant_none(done, key, v);
                            } else {
                                assert(after[b] == before[b]);
                                assert(entry_key(before[b]) != key);
                                assert(keyed_variant(before[b].1@, entry_key(before[b]), v) == keyed_variant(
                                    done,
                                    entry_key(before[b]),
                                    v,
                                ));
                            }
                        }
                    }
                },
            }
            k += 1;
        }
        assert(input.take(k as int) =~= input);
        Ok(cat)
    }

    /// Weighted pick from the `(tag, tier)` pool: the roll `hash % total`
    /// lands on prefab `k` when the weights before it sum to at most the
    /// roll and those up to it exceed it. `None` when there is no such
    /// pool, it is empty, or all its weights are 0.
    pub fn pick_variant(&self, tag: &str, tier: CityTier, hash: u64) -> (r: Option<&Prefab>)
        requires
            pool_pos(self.pools@, tag@, tier) < self.pools@.len() ==> pool_weight(
                self.pools@[pool_pos(self.pools@, tag@, tier)].1@,
                self.pools@[pool_pos(self.pools@, tag@, tier)].1@.len() as int,
            ) <= u32::MAX,
        ensures
            ({
                let i = pool_pos(self.pools@, tag@, tier);
                let pool = self.pools@[i].1@;
                &&& r is None <==> (i == self.pools@.len() || pool.len() == 0 || pool_weight(pool, pool.len() as int)
                    == 0)
                &&& r matches Some(p) ==> exists|k: int|
                    0 <= k < pool.len() && *p == pool[k] && pool_weight(pool, k) <= (hash as int) % pool_weight(
                        pool,
                        pool.len() as int,
                    ) < #[trigger] pool_weight(pool, k + 1)
                &&& r matches Some(p) ==> *p == pool[variant_index(
                    pool,
                    (hash as int) % pool_weight(pool, pool.len() as int),
                    0,
                )]
            }),
    {
        let i = match self.find_pool(tag, tier) {
            Some(i) => i,
            None => return None,
        };
        let pool = &self.pools[i].1;
        if pool.len() == 0 {
            return None;
        }
        let ghost n = pool@.len() as int;
        let mut total: u32 = 0;
        let mut k: usize = 0;
        while k < pool.len()
            invariant
                k <= pool@.len(),
                n == pool@.len(),
                pool_weight(pool@, n) <= u32::MAX,
                total == pool_weight(pool@, k as int),
            decreases pool@.len() - k,
        {
            proof {
                lemma_pool_weight_monotone(pool@, k + 1, n);
            }
            total = total + pool[k].weight;
            k = k + 1;
        }
        if total == 0 {
            return None;
        }
        let ghost roll0 = (hash as int) % (total as int);
        let mut roll: u32 = (hash % (total as u64)) as u32;
        let mut k: usize = 0;
        while k < pool.len()
            invariant
                k <= pool@.len(),
                n == pool@.len(),
                i < self.pools@.len(),
                i == pool_pos(self.pools@, tag@, tier),
                pool@ == self.pools@[i as int].1@,
                total == pool_weight(pool@, n),
                total > 0,
                roll0 == (hash as int) % (total as int),
                0 <= roll0 < total,
                pool_weight(pool@, k as int) <= roll0,
                roll == roll0 - pool_weight(pool@, k as int),
            decreases pool@.len() - k,
        {
            if roll < pool[k].weight {
                let chosen = &pool[k];
                proof {
                    assert(pool_weight(pool@, k as int) <= roll0 < pool_weight(pool@, k + 1));
                    assert(pool@ == self.pools@[i as int].1@);
                    assert(*chosen == pool@[k as int]);
                    lemma_variant_index(pool@, roll0, k as int, 0);
                }
                return Some(chosen);
            }
            roll = roll - pool[k].weight;
            k = k + 1;
        }
        proof {
            assert(pool_weight(pool@, n) <= roll0);
        }
        None
    }

    /// The `(tag, tier)` pool, if there is one.
    pub fn pool(&self, tag: &str, tier: CityTier) -> (r: Option<&[Prefab]>)
        ensures
            match r {
                Some(s) => pool_pos(self.pools@, tag@, tier) < self.pools@.len() && s@ == self.pools@[pool_pos(
                    self.pools@,
                    tag@,
                    tier,
                )].1@,
                None => pool_pos(self.pools@, tag@, tier) == self.pools@.len(),
            },
    {
        match self.find_pool(tag, tier) {
            Some(i) => Some(self.pools[i].1.as_slice()),
            None => None,
        }
    }
}

/// A layer of a prefab's character grids.
#[derive(Clone, Copy, Debug, PartialEq, Eq, Structural)]
pub enum PrefabLayer {
    Grid,
    Roof,
    Objects,
}

/// The first thing wrong with a prefab, scanning the grid, then the roof
/// layer, then the objects layer, each row by row and each row left to
/// right.
#[derive(Clone, Copy, Debug, PartialEq, Eq, Structural)]
pub enum PrefabDefect {
    /// The layer has `rows` rows where the prefab's height asks another.
    RowCount { layer: PrefabLayer, rows: usize },
    /// Row `row` of the layer is `width` characters wide where the
    /// prefab's width asks another.
    RowWidth { layer: PrefabLayer, row: usize, width: usize },
    /// Cell `(col, row)` holds `ch`, neither a space nor a character the
    /// layer's palettes know.
    MissingChar { layer: PrefabLayer, col: usize, row: usize, ch: char },
}

/// Rows of one layer of the prefab.
pub open spec fn layer_rows(p: &Prefab, layer: PrefabLayer) -> Seq<String> {
    match layer {
        PrefabLayer::Grid => p.grid@,
        PrefabLayer::Roof => p.roof@,
        PrefabLayer::Objects => p.objects@,
    }
}

/// A character the layer's palettes know: the legacy or the tag palette
/// for the grid, the roof palette for the roof, the objects palette for
/// the objects.
pub open spec fn known_char(p: &Prefab, layer: PrefabLayer, c: char) -> bool {
    match layer {
        PrefabLayer::Grid => p.palette@.contains_key(c as u32) || p.tag_palette@.contains_key(c as u32),
        PrefabLayer::Roof => p.roof_palette@.contains_key(c as u32),
        PrefabLayer::Objects => p.objects_palette@.contains_key(c as u32),
    }
}

/// Cell `j` of `row` is a space or a known character.
pub open spec fn cell_ok(p: &Prefab, layer: PrefabLayer, row: Seq<char>, j: int) -> bool {
    row[j] == ' ' || known_char(p, layer, row[j])
}

/// Row `i` of the layer is as wide as the prefab and every cell in it is
/// a space or a known character.
pub open spec fn row_ok(p: &Prefab, layer: PrefabLayer, i: int) -> bool {
    let row = layer_rows(p, layer)[i]@;
    &&& row.len() == p.size.0
    &&& forall|j: int| 0 <= j < row.len() ==> #[trigger] cell_ok(p, layer, row, j)
}

/// The layer is as tall as the prefab and every row of it is sound.
pub open spec fn layer_ok(p: &Prefab, layer: PrefabLayer) -> bool {
    &&& layer_rows(p, layer).len() == p.size.1
    &&& forall|i: int| 0 <= i < p.size.1 ==> #[trigger] row_ok(p, layer, i)
}

/// The layers scanned before `layer` are sound: the grid always, the roof
/// when it is there.
pub open spec fn earlier_ok(p: &Prefab, layer: PrefabLayer) -> bool {
    match layer {
        PrefabLayer::Grid => true,
        PrefabLayer::Roof => layer_ok(p, PrefabLayer::Grid),
        PrefabLayer::Objects => layer_ok(p, PrefabLayer::Grid) && (p.roof@.len() == 0 || layer_ok(
            p,
            PrefabLayer::Roof,
        )),
    }
}

/// A prefab whose grid is sound, and whose roof and objects layers are
/// sound where they are present.
pub open spec fn prefab_ok(p: &Prefab) -> bool {
    &&& layer_ok(p, PrefabLayer::Grid)
    &&& p.roof@.len() == 0 || layer_ok(p, PrefabLayer::Roof)
    &&& p.objects@.len() == 0 || layer_ok(p, PrefabLayer::Objects)
}

/// `d` is the first defect of its layer in scan order.
pub open spec fn first_in_layer(p: &Prefab, d: PrefabDefect) -> bool {
    match d {
        PrefabDefect::RowCount { layer, rows } => rows == layer_rows(p, layer).len() && rows != p.size.1,
        PrefabDefect::RowWidth { layer, row, width } => {
            let rows = layer_rows(p, layer);
            &&& rows.len() == p.size.1
            &&& row < rows.len()
            &&& forall|i: int| 0 <= i < row ==> #[trigger] row_ok(p, layer, i)
            &&& width == rows[row as int]@.len() && width != p.size.0
        },
        PrefabDefect::MissingChar { layer, col, row, ch } => {
            let rows = layer_rows(p, layer);
            let cells = rows[row as int]@;
            &&& rows.len() == p.size.1
            &&& row < rows.len()
            &&& forall|i: int| 0 <= i < row ==> #[trigger] row_ok(p, layer, i)
            &&& cells.len() == p.size.0
            &&& col < cells.len()
            &&& forall|j: int| 0 <= j < col ==> #[trigger] cell_ok(p, layer, cells, j)
            &&& ch == cells[col as int] && ch != ' ' && !known_char(p, layer, ch)
        },
    }
}

/// Layer a defect was found in.
pub open spec fn defect_layer(d: PrefabDefect) -> PrefabLayer {
    match d {
        PrefabDefect::RowCount { layer, .. } => layer,
        PrefabDefect::RowWidth { layer, .. } => layer,
        PrefabDefect::MissingChar { layer, .. } => layer,
    }
}

fn known_char_exec(p: &Prefab, layer: PrefabLayer, c: char) -> (r: bool)
    ensures
        r == known_char(p, layer, c),
{
    let k = c as u32;
    match layer {
        PrefabLayer::Grid => p.palette.contains_key(&k) || p.tag_palette.contains_key(&k),
        PrefabLayer::Roof => p.roof_palette.contains_key(&k),
        PrefabLayer::Objects => p.objects_palette.contains_key(&k),
    }
}

/// The first defect of one layer, or `None` when the layer is sound.
fn layer_defect(p: &Prefab, layer: PrefabLayer, rows: &Vec<String>) -> (r: Option<PrefabDefect>)
    requires
        rows@ == layer_rows(p, layer),
    ensures
        r is None <==> layer_ok(p, layer),
        r matches Some(d) ==> defect_layer(d) == layer && first_in_layer(p, d),
{
    if rows.len() != p.size.1 as usize {
        return Some(PrefabDefect::RowCount { layer, rows: rows.len() });
    }
    let mut i: usize = 0;
    while i < rows.len()
        invariant
            rows@ == layer_rows(p, layer),
            rows@.len() == p.size.1,
            i <= rows@.len(),
            forall|k: int| 0 <= k < i ==> #[trigger] row_ok(p, layer, k),
        decreases rows@.len() - i,
    {
        let row = rows[i].as_str();
        let width = row.unicode_len();
        if width != p.size.0 as usize {
            assert(!row_ok(p, layer, i as int));
            return Some(PrefabDefect::RowWidth { layer, row: i, width });
        }
        let mut j: usize = 0;
        while j < width
            invariant
                rows@ == layer_rows(p, layer),
                rows@.len() == p.size.1,
                i < rows@.len(),
                row@ == rows@[i as int]@,
                width == row@.len(),
                width == p.size.0,
                j <= width,
                forall|k: int| 0 <= k < i ==> #[trigger] row_ok(p, layer, k),
                forall|k: int| 0 <= k < j ==> #[trigger] cell_ok(p, layer, row@, k),
            decreases width - j,
        {
            let ch = row.get_char(j);
            if ch != ' ' && !known_char_exec(p, layer, ch) {
                assert(!cell_ok(p, layer, row@, j as int));
                assert(!row_ok(p, layer, i as int));
                return Some(PrefabDefect::MissingChar { layer, col: j, row: i, ch });
            }
            j += 1;
        }
        assert(row_ok(p, layer, i as int));
        i += 1;
    }
    None
}

/// Checks a prefab's layers against its size and palettes: `Ok` exactly
/// when the grid is sound and so are the roof and objects layers where
/// present; otherwise the first defect in scan order.
pub fn validate_prefab(p: &Prefab) -> (r: Result<(), PrefabDefect>)
    ensures
        r is Ok <==> prefab_ok(p),
        r matches Err(d) ==> earlier_ok(p, defect_layer(d)) && first_in_layer(p, d) && (defect_layer(d)
            == PrefabLayer::Roof ==> p.roof@.len() > 0) && (defect_layer(d) == PrefabLayer::Objects
            ==> p.objects@.len() > 0),
{
    if let Some(d) = layer_defect(p, PrefabLayer::Grid, &p.grid) {
        return Err(d);
    }
    if p.roof.len() > 0 {
        if let Some(d) = layer_defect(p, PrefabLayer::Roof, &p.roof) {
            return Err(d);
        }
    }
    if p.objects.len() > 0 {
        if let Some(d) = layer_defect(p, PrefabLayer::Objects, &p.objects) {
            return Err(d);
        }
    }
    Ok(())
}

} // verus!
