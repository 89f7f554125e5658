//! Block identifiers and the registry that gives them a name, a solidity flag
//! and one texture slot per face.

use vstd::prelude::*;

verus! {

/// Number of faces of a block.
pub const FACE_COUNT: usize = 6;

/// A compact block identifier. What it stands for is decided by a
/// [`BlockRegistry`]; identifier 0 is air.
#[derive(Copy, Clone, Debug, PartialEq, Eq, Structural)]
pub struct Block(pub u32);

/// The six faces of a block.
#[derive(Copy, Clone, Debug, PartialEq, Eq, Structural)]
pub enum FaceDirection {
    Up,
    Down,
    Front,
    Back,
    Left,
    Right,
}

impl FaceDirection {
    /// Position of the face in per-face tables and in packed face records.
    pub open spec fn index_spec(self) -> int {
        match self {
            FaceDirection::Up => 0,
            FaceDirection::Down => 1,
            FaceDirection::Front => 2,
            FaceDirection::Back => 3,
            FaceDirection::Left => 4,
            FaceDirection::Right => 5,
        }
    }

    /// Step from a block to the neighbour that this face looks at.
    pub open spec fn offset(self) -> (int, int, int) {
        match self {
            FaceDirection::Up => (0, 1, 0),
            FaceDirection::Down => (0, -1, 0),
            FaceDirection::Front => (0, 0, -1),
            FaceDirection::Back => (0, 0, 1),
            FaceDirection::Left => (1, 0, 0),
            FaceDirection::Right => (-1, 0, 0),
        }
    }

    /// Position of the face in per-face tables.
    pub fn index(self) -> (i: usize)
        ensures
            i == self.index_spec(),
            i < FACE_COUNT,
    {
        match self {
            FaceDirection::Up => 0,
            FaceDirection::Down => 1,
            FaceDirection::Front => 2,
            FaceDirection::Back => 3,
            FaceDirection::Left => 4,
            FaceDirection::Right => 5,
        }
    }

    /// The face with the given table position, if there is one.
    pub fn from_index(i: usize) -> (face: Option<FaceDirection>)
        ensures
            i < FACE_COUNT <==> face is Some,
            face matches Some(f) ==> f.index_spec() == i,
    {
        if i == 0 {
            Some(FaceDirection::Up)
        } else if i == 1 {
            Some(FaceDirection::Down)
        } else if i == 2 {
            Some(FaceDirection::Front)
        } else if i == 3 {
            Some(FaceDirection::Back)
        } else if i == 4 {
            Some(FaceDirection::Left)
        } else if i == 5 {
            Some(FaceDirection::Right)
        } else {
            None
        }
    }
}

/// What a texture asset list says, with strings and face lists as sequences.
pub open spec fn assets_view(assets: Seq<(String, Vec<FaceDirection>)>) -> Seq<
    (Seq<char>, Seq<FaceDirection>),
> {
    Seq::new(assets.len(), |i: int| (assets[i].0@, assets[i].1@))
}

/// The properties of one kind of block.
pub struct BlockData {
    texture_assets: Vec<(String, Vec<FaceDirection>)>,
    textures: [u32; 6],
    solid: bool,
}

/// Mathematical content of a [`BlockData`].
pub struct BlockDataView {
    /// Texture files, each with the faces it is painted on.
    pub texture_assets: Seq<(Seq<char>, Seq<FaceDirection>)>,
    /// Atlas slot of each face, by [`FaceDirection::index_spec`].
    pub textures: Seq<u32>,
    pub solid: bool,
}

impl View for BlockData {
    type V = BlockDataView;

    closed spec fn view(&self) -> BlockDataView {
        BlockDataView {
            texture_assets: assets_view(self.texture_assets@),
            textures: self.textures@,
            solid: self.solid,
        }
    }
}

impl BlockData {
    /// A block kind whose faces all show atlas slot 0 until textures are
    /// assigned.
    pub fn new(solid: bool, texture_assets: Vec<(String, Vec<FaceDirection>)>) -> (data: BlockData)
        ensures
            data@ == (BlockDataView {
                texture_assets: assets_view(texture_assets@),
                textures: Seq::new(6, |i: int| 0u32),
                solid,
            }),
    {
        let data = BlockData { texture_assets, textures: [0; 6], solid };
        assert(data.textures@ =~= Seq::new(6, |i: int| 0u32));
        data
    }

    /// Whether blocks of this kind are solid.
    pub fn is_solid(&self) -> (solid: bool)
        ensures
            solid == self@.solid,
    {
        self.solid
    }

    /// Atlas slot of one face.
    pub fn texture(&self, face: FaceDirection) -> (slot: u32)
        ensures
            slot == self@.textures[face.index_spec()],
    {
        self.textures[face.index()]
    }
}

/// Atlas slot given to `face` by a list of texture assets whose first entry
/// has slot `base + 1`: the slot of the last entry that names the face, or 0
/// (the blank slot) when none does.
pub open spec fn face_slot(
    assets: Seq<(Seq<char>, Seq<FaceDirection>)>,
    base: int,
    face: FaceDirection,
) -> int
    decreases assets.len(),
{
    if assets.len() == 0 {
        0
    } else if assets.last().1.contains(face) {
        base + assets.len()
    } else {
        face_slot(assets.drop_last(), base, face)
    }
}

/// Number of texture assets held by the first `n` block kinds.
pub open spec fn assets_before(data: Seq<BlockDataView>, n: int) -> int
    decreases n,
{
    if n <= 0 {
        0
    } else {
        assets_before(data, n - 1) + data[n - 1].texture_assets.len()
    }
}

/// The texture files of the first `n` block kinds, in atlas order.
pub open spec fn asset_names(data: Seq<BlockDataView>, n: int) -> Seq<Seq<char>>
    decreases n,
{
    if n <= 0 {
        Seq::empty()
    } else {
        asset_names(data, n - 1) + data[n - 1].texture_assets.map_values(
            |a: (Seq<char>, Seq<FaceDirection>)| asset_name(a),
        )
    }
}

/// Mathematical content of a [`BlockRegistry`]: entry `i` describes block
/// identifier `i`.
pub struct RegistryView {
    pub names: Seq<Seq<char>>,
    pub data: Seq<BlockDataView>,
}

impl RegistryView {
    /// Validity: one name per entry, identifiers fit in 32 bits, six
    /// texture slots per entry, and identifier 0, once registered, is not
    /// solid.
    pub open spec fn wf(self) -> bool {
        &&& self.names.len() == self.data.len()
        &&& self.data.len() <= u32::MAX
        &&& forall|i: int| 0 <= i < self.data.len() ==> (#[trigger] self.data[i]).textures.len() == 6
        &&& self.data.len() > 0 ==> !self.data[0].solid
    }

    /// A registered, solid block. Unregistered identifiers count as air.
    pub open spec fn is_solid(self, id: u32) -> bool {
        id < self.data.len() && self.data[id as int].solid
    }

    /// Atlas slot of a face; the blank slot for unregistered identifiers.
    pub open spec fn face_texture(self, id: u32, face: FaceDirection) -> u32 {
        if id < self.data.len() {
            self.data[id as int].textures[face.index_spec()]
        } else {
            0
        }
    }

    /// `found` is what looking `name` up gives: the latest registration
    /// under that name, or nothing when the name was never registered.
    pub open spec fn resolves(self, name: Seq<char>, found: Option<Block>) -> bool {
        match found {
            Some(block) => {
                &&& block.0 < self.names.len()
                &&& self.names[block.0 as int] == name
                &&& forall|j: int| block.0 < j < self.names.len() ==> self.names[j] != name
            },
            None => forall|j: int| 0 <= j < self.names.len() ==> self.names[j] != name,
        }
    }

    /// The registry with one more block kind.
    pub open spec fn push(self, name: Seq<char>, data: BlockDataView) -> RegistryView {
        RegistryView { names: self.names.push(name), data: self.data.push(data) }
    }

    /// Atlas slots of block kind `i` once every texture asset has its slot.
    pub open spec fn assigned_textures(self, i: int) -> Seq<u32> {
        Seq::new(
            6,
            |f: int|
                face_slot(
                    self.data[i].texture_assets,
                    assets_before(self.data, i),
                    face_at(f),
                ) as u32,
        )
    }

    /// The registry after texture assignment.
    pub open spec fn with_textures(self) -> RegistryView {
        RegistryView {
            names: self.names,
            data: Seq::new(
                self.data.len(),
                |i: int|
                    BlockDataView {
                        texture_assets: self.data[i].texture_assets,
                        textures: self.assigned_textures(i),
                        solid: self.data[i].solid,
                    },
            ),
        }
    }
}

/// The face at a table position.
pub open spec fn face_at(i: int) -> FaceDirection {
    if i == 0 {
        FaceDirection::Up
    } else if i == 1 {
        FaceDirection::Down
    } else if i == 2 {
        FaceDirection::Front
    } else if i == 3 {
        FaceDirection::Back
    } else if i == 4 {
        FaceDirection::Left
    } else {
        FaceDirection::Right
    }
}

/// The block kind registered as "air": not solid, without textures.
pub open spec fn default_air() -> BlockDataView {
    BlockDataView {
        texture_assets: Seq::empty(),
        textures: Seq::new(6, |i: int| 0u32),
        solid: false,
    }
}

/// The block kind registered as "grass": solid, with a texture for the top,
/// one for the four sides and one for the bottom.
pub open spec fn default_grass() -> BlockDataView {
    BlockDataView {
        texture_assets: seq![
            ("assets/textures/PNG/Tiles/grass_top.png"@, seq![FaceDirection::Up]),
            (
                "assets/textures/PNG/Tiles/dirt_grass.png"@,
                seq![
                    FaceDirection::Front,
                    FaceDirection::Back,
                    FaceDirection::Left,
                    FaceDirection::Right,
                ],
            ),
            ("assets/textures/PNG/Tiles/dirt.png"@, seq![FaceDirection::Down]),
        ],
        textures: Seq::new(6, |i: int| 0u32),
        solid: true,
    }
}

/// The block kind registered as "dirt": solid, with one texture on all six
/// faces.
pub open spec fn default_dirt() -> BlockDataView {
    BlockDataView {
        texture_assets: seq![
            (
                "assets/textures/PNG/Tiles/dirt.png"@,
                seq![
                    FaceDirection::Up,
                    FaceDirection::Down,
                    FaceDirection::Left,
                    FaceDirection::Right,
                    FaceDirection::Front,
                    FaceDirection::Back,
                ],
            ),
        ],
        textures: Seq::new(6, |i: int| 0u32),
        solid: true,
    }
}

/// What a list of strings says.
pub open spec fn string_views(strings: Seq<String>) -> Seq<Seq<char>> {
    strings.map_values(|s: String| s@)
}

/// The file of a texture asset.
pub open spec fn asset_name(asset: (Seq<char>, Seq<FaceDirection>)) -> Seq<char> {
    asset.0
}

/// The first `n` block kinds hold no more texture assets than the first
/// `m`, for `n <= m`.
pub proof fn lemma_assets_before_grows(data: Seq<BlockDataView>, n: int, m: int)
    requires
        0 <= n <= m,
    ensures
        0 <= assets_before(data, n) <= assets_before(data, m),
    decreases m,
{
    if n < m {
        lemma_assets_before_grows(data, n, m - 1);
    } else if n > 0 {
        lemma_assets_before_grows(data, n - 1, n - 1);
    }
}

/// The table of block kinds, indexed by block identifier. The names are kept
/// in the order of registration, and a lookup by name scans them from the
/// latest.
pub struct BlockRegistry {
    data: Vec<BlockData>,
    names: Vec<String>,
}

impl View for BlockRegistry {
    type V = RegistryView;

    closed spec fn view(&self) -> RegistryView {
        RegistryView {
            names: Seq::new(self.names@.len(), |i: int| self.names@[i]@),
            data: Seq::new(self.data@.len(), |i: int| self.data@[i]@),
        }
    }
}

impl BlockRegistry {
    /// Validity: one name per entry, identifiers fit in 32 bits, and
    /// identifier 0, once registered, is not solid.
    pub closed spec fn wf(&self) -> bool {
        self@.wf()
    }

    /// A valid registry has valid content.
    pub proof fn lemma_wf(&self)
        requires
            self.wf(),
        ensures
            self@.wf(),
    {
    }

    /// An empty registry.
    pub fn new() -> (registry: BlockRegistry)
        ensures
            registry.wf(),
            registry@.names.len() == 0,
            registry@.data.len() == 0,
    {
        BlockRegistry { data: Vec::new(), names: Vec::new() }
    }

    /// Number of registered block kinds.
    pub fn len(&self) -> (n: usize)
        ensures
            n == self@.data.len(),
    {
        self.data.len()
    }

    /// Number of slots that the texture atlas needs: the blank slot and one
    /// for each texture asset. `None` if that number does not fit in 32
    /// bits.
    pub fn atlas_slots(&self) -> (slots: Option<u32>)
        requires
            self.wf(),
        ensures
            slots is Some <==> assets_before(self@.data, self@.data.len() as int) < u32::MAX,
            slots matches Some(n) ==> n == 1 + assets_before(self@.data, self@.data.len() as int),
    {
        let mut slots: u32 = 1;
        let mut i: usize = 0;
        while i < self.data.len()
            invariant
                i <= self.data@.len(),
                slots == 1 + assets_before(self@.data, i as int),
            decreases self.data@.len() - i,
        {
            let count: usize = self.data[i].texture_assets.len();
            proof {
                assert(self@.data[i as int].texture_assets.len() == count);
                lemma_assets_before_grows(self@.data, i as int + 1, self@.data.len() as int);
            }
            if count > (u32::MAX - slots) as usize {
                return None;
            }
            slots = slots + count as u32;
            i = i + 1;
        }
        Some(slots)
    }

    /// Gives every texture asset its slot in the atlas and every face of
    /// every block kind the slot of its texture. Slot 0 stays blank; the
    /// assets take the slots from 1 on, block kind by block kind in the
    /// order of their identifiers. A face named by several assets of its
    /// block kind shows the last of them; a face named by none shows the
    /// blank slot. Returns the texture files in the order of their slots,
    /// first slot 1.
    pub fn assign_textures(&mut self) -> (files: Vec<String>)
        requires
            old(self).wf(),
            assets_before(old(self)@.data, old(self)@.data.len() as int) < u32::MAX,
        ensures
            final(self).wf(),
            final(self)@ == old(self)@.with_textures(),
            string_views(files@) == asset_names(old(self)@.data, old(self)@.data.len() as int),
    {
        let ghost before = self@;
        let ghost total = assets_before(before.data, before.data.len() as int);
        let mut files: Vec<String> = Vec::new();
        let mut next: u32 = 1;
        let mut i: usize = 0;
        assert(string_views(files@) =~= asset_names(before.data, 0));
        while i < self.data.len()
            invariant
                before.wf(),
                total == assets_before(before.data, before.data.len() as int),
                total < u32::MAX,
                i <= self.data@.len(),
                self@.names == before.names,
                self@.data.len() == before.data.len(),
                next == 1 + assets_before(before.data, i as int),
                string_views(files@) == asset_names(before.data, i as int),
                forall|k: int| 0 <= k < i ==> self@.data[k] == before.with_textures().data[k],
                forall|k: int| i <= k < self.data@.len() ==> self@.data[k] == before.data[k],
            decreases self.data@.len() - i,
        {
            let ghost base = assets_before(before.data, i as int);
            let ghost assets = before.data[i as int].texture_assets;
            let ghost done = string_views(files@);
            let mut textures: [u32; 6] = [0; 6];
            let mut j: usize = 0;
            proof {
                lemma_assets_before_grows(before.data, i as int + 1, before.data.len() as int);
                assert(self@.data[i as int] == before.data[i as int]);
                assert(assets.take(0).map_values(
                    |a: (Seq<char>, Seq<FaceDirection>)| asset_name(a),
                ) =~= Seq::<Seq<char>>::empty());
                assert(done + Seq::<Seq<char>>::empty() =~= done);
            }
            while j < self.data[i].texture_assets.len()
                invariant
                    i < self.data@.len(),
                    self@.data[i as int] == before.data[i as int],
                    assets == before.data[i as int].texture_assets,
                    base == assets_before(before.data, i as int),
                    base + assets.len() <= total,
                    total < u32::MAX,
                    j <= assets.len(),
                    next == 1 + base + j,
                    forall|f: int|
                        0 <= f < 6 ==> #[trigger] textures[f] == face_slot(
                            assets.take(j as int),
                            base,
                            face_at(f),
                        ),
                    string_views(files@) == done + assets.take(j as int).map_values(
                        |a: (Seq<char>, Seq<FaceDirection>)| asset_name(a),
                    ),
                decreases assets.len() - j,
            {
                let ghost dirs = assets[j as int].1;
                let ghost slots = textures@;
                let count: usize = self.data[i].texture_assets[j].1.len();
                let mut k: usize = 0;
                while k < count
                    invariant
                        i < self.data@.len(),
                        j < self.data@[i as int].texture_assets@.len(),
                        count == self.data@[i as int].texture_assets@[j as int].1@.len(),
                        dirs == self.data@[i as int].texture_assets@[j as int].1@,
                        k <= count,
                        forall|f: int|
                            0 <= f < 6 ==> #[trigger] textures[f] == (if dirs.take(
                                k as int,
                            ).contains(face_at(f)) {
                                next
                            } else {
                                slots[f]
                            }),
                    decreases count - k,
                {
                    let dir: FaceDirection = self.data[i].texture_assets[j].1[k];
                    let ghost was = textures@;
                    textures[dir.index()] = next;
                    proof {
                        let seen = dirs.take(k as int);
                        let grown = dirs.take(k as int + 1);
                        assert(grown =~= seen.push(dir));
                        assert forall|f: int| 0 <= f < 6 implies #[trigger] textures[f] == (
                        if grown.contains(face_at(f)) {
                            next
                        } else {
                            slots[f]
                        }) by {
                            if face_at(f) == dir {
                                assert(grown[k as int] == dir);
                                assert(f == dir.index_spec());
                            } else {
                                assert(textures[f] == was[f]);
                                if seen.contains(face_at(f)) {
                                    let m = choose|m: int|
                                        0 <= m < seen.len() && seen[m] == face_at(f);
                                    assert(grown[m] == face_at(f));
                                }
                                if grown.contains(face_at(f)) {
                                    let m = choose|m: int|
                                        0 <= m < grown.len() && grown[m] == face_at(f);
                                    assert(seen[m] == face_at(f));
                                }
                            }
                        }
                    }
                    k = k + 1;
                }
                let ghost sent = string_views(files@);
                files.push(self.data[i].texture_assets[j].0.clone());
                proof {
                    let grown = assets.take(j as int + 1);
                    assert(dirs.take(count as int) =~= dirs);
                    assert(grown.last() == assets[j as int]);
                    assert(grown.drop_last() =~= assets.take(j as int));
                    assert(string_views(files@) =~= sent.push(asset_name(assets[j as int])));
                    assert(grown.map_values(|a: (Seq<char>, Seq<FaceDirection>)| asset_name(a))
                        =~= assets.take(j as int).map_values(
                        |a: (Seq<char>, Seq<FaceDirection>)| asset_name(a),
                    ).push(asset_name(assets[j as int])));
                    assert(string_views(files@) =~= done + grown.map_values(
                        |a: (Seq<char>, Seq<FaceDirection>)| asset_name(a),
                    ));
                }
                next = next + 1;
                j = j + 1;
            }
            self.data[i].textures = textures;
            proof {
                assert(assets.take(j as int) =~= assets);
                assert(textures@ =~= before.assigned_textures(i as int));
                assert(self@.data[i as int] == before.with_textures().data[i as int]);
                assert(self@.names =~= before.names);
            }
            i = i + 1;
        }
        proof {
            assert(self@.data =~= before.with_textures().data);
        }
        files
    }

    /// Whether `id` is registered and solid.
    pub fn solid(&self, id: u32) -> (solid: bool)
        ensures
            solid == self@.is_solid(id),
    {
        if (id as usize) < self.data.len() {
            self.data[id as usize].solid
        } else {
            false
        }
    }

    /// Atlas slot of a face of `id`; 0 for an unregistered identifier.
    pub fn face_texture(&self, id: u32, face: FaceDirection) -> (slot: u32)
        ensures
            slot == self@.face_texture(id, face),
    {
        if (id as usize) < self.data.len() {
            self.data[id as usize].textures[face.index()]
        } else {
            0
        }
    }
}

impl Block {
    /// Air: the block that is never solid and shows no face.
    pub fn air() -> (block: Block)
        ensures
            block.0 == 0,
    {
        Block(0)
    }

    /// Appends a block kind to the registry and returns its identifier, the
    /// next unused one. A later lookup of `name` finds this registration.
    pub fn register(registry: &mut BlockRegistry, name: String, data: BlockData) -> (block: Block)
        requires
            old(registry).wf(),
            old(registry)@.data.len() < u32::MAX,
            old(registry)@.data.len() == 0 ==> !data@.solid,
        ensures
            final(registry).wf(),
            block.0 == old(registry)@.data.len(),
            final(registry)@ == old(registry)@.push(name@, data@),
    {
        let index: u32 = registry.data.len() as u32;
        registry.data.push(data);
        registry.names.push(name);
        assert(registry@.names =~= old(registry)@.names.push(name@));
        assert(registry@.data =~= old(registry)@.data.push(data@));
        Block(index)
    }

    /// Registers the three block kinds that every world has, in this
    /// order: "air", "grass" and "dirt". On an empty registry they get the
    /// identifiers 0, 1 and 2.
    pub fn register_defaults(registry: &mut BlockRegistry)
        requires
            old(registry).wf(),
            old(registry)@.data.len() + 3 <= u32::MAX,
        ensures
            final(registry).wf(),
            final(registry)@ == old(registry)@.push("air"@, default_air()).push(
                "grass"@,
                default_grass(),
            ).push("dirt"@, default_dirt()),
    {
        let air = BlockData::new(false, Vec::new());
        assert(air@.texture_assets =~= default_air().texture_assets);
        Block::register(registry, "air".to_owned(), air);

        let mut grass_assets: Vec<(String, Vec<FaceDirection>)> = Vec::new();
        grass_assets.push(
            ("assets/textures/PNG/Tiles/grass_top.png".to_owned(), vec![FaceDirection::Up]),
        );
        grass_assets.push(
            (
                "assets/textures/PNG/Tiles/dirt_grass.png".to_owned(),
                vec![
                    FaceDirection::Front,
                    FaceDirection::Back,
                    FaceDirection::Left,
                    FaceDirection::Right,
                ],
            ),
        );
        grass_assets.push(
            ("assets/textures/PNG/Tiles/dirt.png".to_owned(), vec![FaceDirection::Down]),
        );
        let grass = BlockData::new(true, grass_assets);
        assert(grass@.texture_assets =~~= default_grass().texture_assets);
        Block::register(registry, "grass".to_owned(), grass);

        let mut dirt_assets: Vec<(String, Vec<FaceDirection>)> = Vec::new();
        dirt_assets.push(
            (
                "assets/textures/PNG/Tiles/dirt.png".to_owned(),
                vec![
                    FaceDirection::Up,
                    FaceDirection::Down,
                    FaceDirection::Left,
                    FaceDirection::Right,
                    FaceDirection::Front,
                    FaceDirection::Back,
                ],
            ),
        );
        let dirt = BlockData::new(true, dirt_assets);
        assert(dirt@.texture_assets =~~= default_dirt().texture_assets);
        Block::register(registry, "dirt".to_owned(), dirt);
    }

    /// Looks a block up by name.
    pub fn get(registry: &BlockRegistry, name: &str) -> (found: Option<Block>)
        requires
            registry.wf(),
        ensures
            registry@.resolves(name@, found),
    {
        let wanted: String = name.to_owned();
        let mut i: usize = registry.names.len();
        while i > 0
            invariant
                registry.wf(),
                wanted@ == name@,
                i <= registry.names@.len(),
                forall|j: int| i <= j < registry.names@.len() ==> registry@.names[j] != name@,
            decreases i,
        {
            i = i - 1;
            if registry.names[i] == wanted {
                return Some(Block(i as u32));
            }
        }
        None
    }

    /// Atlas slot of one face of this block, if the block is registered.
    pub fn get_texture(&self, registry: &BlockRegistry, face: FaceDirection) -> (slot: Option<u32>)
        ensures
            slot is Some <==> self.0 < registry@.data.len(),
            slot matches Some(s) ==> s == registry@.data[self.0 as int].textures[face.index_spec()],
    {
        if (self.0 as usize) < registry.data.len() {
            Some(registry.data[self.0 as usize].textures[face.index()])
        } else {
            None
        }
    }

    /// Solidity of this block, if the block is registered.
    pub fn is_solid(&self, registry: &BlockRegistry) -> (solid: Option<bool>)
        ensures
            solid is Some <==> self.0 < registry@.data.len(),
            solid matches Some(s) ==> s == registry@.data[self.0 as int].solid,
    {
        if (self.0 as usize) < registry.data.len() {
            Some(registry.data[self.0 as usize].solid)
        } else {
            None
        }
    }
}

/// The pixels of the blank texture in atlas slot 0: four zero bytes for each
/// pixel of a texture of the given size.
pub fn blank_texture(width: u32, height: u32) -> (pixels: Vec<u8>)
    requires
        width * height * 4 <= usize::MAX,
    ensures
        pixels@.len() == width * height * 4,
        forall|i: int| 0 <= i < pixels@.len() ==> pixels@[i] == 0,
{
    assert(width * height * 4 <= usize::MAX ==> (width as usize) * (height as usize) <= usize::MAX
        && (width as usize) * (height as usize) * 4 <= usize::MAX) by (nonlinear_arith);
    let len: usize = width as usize * height as usize * 4;
    let mut pixels: Vec<u8> = Vec::new();
    let mut i: usize = 0;
    while i < len
        invariant
            i <= len,
            pixels@.len() == i,
            forall|j: int| 0 <= j < i ==> pixels@[j] == 0,
        decreases len - i,
    {
        pixels.push(0);
        i = i + 1;
    }
    pixels
}

} // verus!
