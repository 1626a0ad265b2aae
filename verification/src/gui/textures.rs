//! The textures of a user interface, and how they are uploaded.

use crate::descriptors::MAX_FRAMES_IN_FLIGHT;
use crate::gui::sampler::TextureOptions;
use crate::index_map::{id_count, id_entry, id_index, insert_id, new_ids, swap_remove_id};
#[allow(unused_imports)]
use crate::index_map::{
    has_id, id_at, id_entries, ids_distinct, insert_keeps_ids_distinct, swap_removed,
    swap_removed_keeps,
};
use crate::vk::{LAYOUT_SHADER_READ_ONLY_OPTIMAL, LAYOUT_UNDEFINED};
use indexmap::IndexMap;
use vstd::prelude::*;

verus! {

/// The pipeline that draws the user interface.
pub const GUI_PIPELINE_ID: &'static str = "/engine/gui/gui";

/// The number of textures that a user interface can have.
pub const MAX_FONT_TEXTURES: u32 = 512;

/// The binding of the textures in the descriptor set.
pub const TEXTURES_BINDING: u32 = 4;

/// The name of a texture.
#[derive(Clone, Copy, PartialEq, Eq, Structural, Debug)]
pub enum TextureId {
    Managed(u64),
    User(u64),
}

impl TextureId {
    /// The name as a pair of numbers.
    pub open spec fn spec_key(self) -> (u32, u64) {
        match self {
            TextureId::Managed(id) => (0u32, id),
            TextureId::User(id) => (1u32, id),
        }
    }

    /// The name as a pair of numbers.
    pub fn key(&self) -> (key: (u32, u64))
        ensures
            key == self.spec_key(),
    {
        match *self {
            TextureId::Managed(id) => (0, id),
            TextureId::User(id) => (1, id),
        }
    }
}

/// Different names have different keys.
pub proof fn texture_keys_distinct(a: TextureId, b: TextureId)
    requires
        a.spec_key() == b.spec_key(),
    ensures
        a == b,
{
}

/// New pixels for a texture, or for a part of it that starts at `pos`.
#[derive(Clone, Copy, PartialEq, Eq, Debug)]
pub struct TextureUpdate {
    pub id: TextureId,
    pub width: u32,
    pub height: u32,
    pub pos: Option<(i32, i32)>,
    pub options: TextureOptions,
}

/// A copy from the staging buffer to a texture.
#[derive(Clone, Copy, PartialEq, Eq, Structural, Debug)]
pub struct TextureCopy {
    pub texture: usize,
    pub buffer_offset: u64,
    pub x: i32,
    pub y: i32,
    pub width: u32,
    pub height: u32,
}

/// A texture that is uploaded to, and the layout that it has before.
#[derive(Clone, Copy, PartialEq, Eq, Structural, Debug)]
pub struct TextureTransition {
    pub texture: usize,
    pub layout: i32,
}

/// What has to be done to upload textures.
pub struct UploadPlan {
    /// The textures that are uploaded to.
    pub transitions: Vec<TextureTransition>,
    pub copies: Vec<TextureCopy>,
}

/// The size of an update in bytes, with four bytes for each pixel.
pub open spec fn update_size(update: TextureUpdate) -> nat {
    (update.width * update.height * 4) as nat
}

/// The size of the first `n` updates.
pub open spec fn offset_of(updates: Seq<TextureUpdate>, n: nat) -> nat
    decreases n,
{
    if n == 0 {
        0
    } else {
        offset_of(updates, (n - 1) as nat) + update_size(updates[n - 1])
    }
}

/// The textures after an update: one of a whole texture that does not exist creates it, with the
/// sampler of the update.
pub open spec fn after_update(
    entries: Seq<((u32, u64), u64)>,
    update: TextureUpdate,
    sampler: u64,
) -> Seq<((u32, u64), u64)> {
    if creates(entries, update) {
        entries.push((update.id.spec_key(), sampler))
    } else {
        entries
    }
}

/// The textures after the first `n` updates: an update of a whole texture that does not exist
/// creates it, with the sampler of the update.
pub open spec fn placed(
    entries: Seq<((u32, u64), u64)>,
    updates: Seq<TextureUpdate>,
    samplers: Seq<u64>,
    n: nat,
) -> Seq<((u32, u64), u64)>
    decreases n,
{
    if n == 0 {
        entries
    } else {
        after_update(
            placed(entries, updates, samplers, (n - 1) as nat),
            updates[n - 1],
            samplers[n - 1],
        )
    }
}

/// An update creates a texture.
pub open spec fn creates(entries: Seq<((u32, u64), u64)>, update: TextureUpdate) -> bool {
    update.pos is None && !has_id(entries, update.id.spec_key())
}

/// Update `i` creates a texture.
pub open spec fn creates_at(
    entries: Seq<((u32, u64), u64)>,
    updates: Seq<TextureUpdate>,
    samplers: Seq<u64>,
    i: int,
) -> bool {
    creates(placed(entries, updates, samplers, i as nat), updates[i])
}

/// Every update of a part is of a texture that exists when its turn comes.
pub open spec fn updates_known(
    entries: Seq<((u32, u64), u64)>,
    updates: Seq<TextureUpdate>,
) -> bool {
    forall|i: int|
        0 <= i < updates.len() && (#[trigger] updates[i]).pos is Some ==> known_at(
            entries,
            updates,
            i,
        )
}

/// The texture of update `i` exists, or an update before creates it.
pub open spec fn known_at(
    entries: Seq<((u32, u64), u64)>,
    updates: Seq<TextureUpdate>,
    i: int,
) -> bool {
    ||| has_id(entries, updates[i].id.spec_key())
    ||| exists|j: int|
        0 <= j < i && (#[trigger] updates[j]).pos is None && updates[j].id == updates[i].id
}

/// The last of the first `n` updates of a texture.
pub open spec fn last_update(updates: Seq<TextureUpdate>, key: (u32, u64), n: nat) -> Option<int>
    decreases n,
{
    if n == 0 {
        None
    } else if updates[n - 1].id.spec_key() == key {
        Some(n - 1)
    } else {
        last_update(updates, key, (n - 1) as nat)
    }
}

/// The layout that update `i` finds its texture in, where `created` tells which of the updates
/// created theirs.
pub open spec fn layout_before(created: Seq<bool>, i: int) -> i32 {
    if created[i] {
        LAYOUT_UNDEFINED
    } else {
        LAYOUT_SHADER_READ_ONLY_OPTIMAL
    }
}

/// The transitions of the first `t` textures: one for each texture that is updated, from the layout
/// that its last update finds it in.
pub open spec fn transitions_of(
    entries: Seq<((u32, u64), u64)>,
    updates: Seq<TextureUpdate>,
    created: Seq<bool>,
    t: nat,
) -> Seq<TextureTransition>
    decreases t,
{
    if t == 0 {
        seq![]
    } else {
        let before = transitions_of(entries, updates, created, (t - 1) as nat);
        match last_update(updates, entries[t - 1].0, updates.len()) {
            Some(i) => before.push(
                TextureTransition {
                    texture: (t - 1) as usize,
                    layout: layout_before(created, i),
                },
            ),
            None => before,
        }
    }
}

/// The copy of update `i`, in its place in the staging buffer.
pub open spec fn copy_of(
    entries: Seq<((u32, u64), u64)>,
    updates: Seq<TextureUpdate>,
    i: int,
    copy: TextureCopy,
) -> bool {
    let update = updates[i];
    &&& id_at(entries, update.id.spec_key(), copy.texture as int)
    &&& copy.buffer_offset == offset_of(updates, i as nat)
    &&& (copy.x, copy.y) == (match update.pos {
        Some(pos) => pos,
        None => (0i32, 0i32),
    })
    &&& copy.width == update.width
    &&& copy.height == update.height
}

/// The entries after the first `n` textures of `free` were taken out.
pub open spec fn freed(entries: Seq<((u32, u64), u64)>, free: Seq<TextureId>, n: nat) -> Seq<
    ((u32, u64), u64),
>
    decreases n,
{
    if n == 0 {
        entries
    } else {
        let before = freed(entries, free, (n - 1) as nat);
        if has_id(before, free[n - 1].spec_key()) {
            swap_removed(before, position(before, free[n - 1].spec_key()))
        } else {
            before
        }
    }
}

/// The places of the textures among the first `n` of `free` that were taken out.
pub open spec fn freed_places(
    entries: Seq<((u32, u64), u64)>,
    free: Seq<TextureId>,
    n: nat,
) -> Seq<usize>
    decreases n,
{
    if n == 0 {
        seq![]
    } else {
        let before = freed(entries, free, (n - 1) as nat);
        let places = freed_places(entries, free, (n - 1) as nat);
        if has_id(before, free[n - 1].spec_key()) {
            places.push(position(before, free[n - 1].spec_key()) as usize)
        } else {
            places
        }
    }
}

/// The place of a key.
pub open spec fn position(entries: Seq<((u32, u64), u64)>, key: (u32, u64)) -> int {
    choose|i: int| id_at(entries, key, i)
}

proof fn position_unique(entries: Seq<((u32, u64), u64)>, key: (u32, u64), i: int)
    requires
        ids_distinct(entries),
        id_at(entries, key, i),
    ensures
        position(entries, key) == i,
{
    let p = position(entries, key);
    assert(id_at(entries, key, p));
    if p < i {
        assert(entries[p].0 != entries[i].0);
    }
    if i < p {
        assert(entries[i].0 != entries[p].0);
    }
}

proof fn offsets_grow(updates: Seq<TextureUpdate>, m: nat, n: nat)
    requires
        m <= n,
    ensures
        offset_of(updates, m) <= offset_of(updates, n),
    decreases n,
{
    if m < n {
        offsets_grow(updates, m, (n - 1) as nat);
    }
}

/// The copies of an upload do not overlap in the staging buffer, and fill it.
pub proof fn copies_disjoint(updates: Seq<TextureUpdate>, i: nat, j: nat)
    requires
        i < j < updates.len(),
    ensures
        offset_of(updates, i) + update_size(updates[i as int]) <= offset_of(updates, j),
        offset_of(updates, j) + update_size(updates[j as int]) <= offset_of(
            updates,
            updates.len(),
        ),
{
    offsets_grow(updates, i + 1, j);
    offsets_grow(updates, j + 1, updates.len());
}

/// Updates keep the textures that exist, in their places, and create none twice.
pub proof fn placed_extends(
    entries: Seq<((u32, u64), u64)>,
    updates: Seq<TextureUpdate>,
    samplers: Seq<u64>,
    n: nat,
)
    requires
        ids_distinct(entries),
        n <= updates.len(),
    ensures
        ids_distinct(placed(entries, updates, samplers, n)),
        entries.is_prefix_of(placed(entries, updates, samplers, n)),
        placed(entries, updates, samplers, n).len() <= entries.len() + n,
        forall|key: (u32, u64)|
            has_id(entries, key) ==> #[trigger] has_id(placed(entries, updates, samplers, n), key),
        forall|j: int|
            0 <= j < n && (#[trigger] updates[j]).pos is None ==> has_id(
                placed(entries, updates, samplers, n),
                updates[j].id.spec_key(),
            ),
    decreases n,
{
    if n > 0 {
        placed_extends(entries, updates, samplers, (n - 1) as nat);
        let before = placed(entries, updates, samplers, (n - 1) as nat);
        let after = placed(entries, updates, samplers, n);
        if creates(before, updates[n - 1]) {
            insert_keeps_ids_distinct(before, updates[n - 1].id.spec_key(), samplers[n - 1]);
            assert(id_at(after, updates[n - 1].id.spec_key(), before.len() as int));
        }
        assert forall|key: (u32, u64)| has_id(before, key) implies #[trigger] has_id(after, key) by {
            let i = choose|i: int| id_at(before, key, i);
            assert(id_at(after, key, i));
        }
    }
}

/// With known updates, every update is of a texture that exists in the end.
pub proof fn updates_find_textures(
    entries: Seq<((u32, u64), u64)>,
    updates: Seq<TextureUpdate>,
    samplers: Seq<u64>,
    i: int,
)
    requires
        ids_distinct(entries),
        updates_known(entries, updates),
        0 <= i < updates.len(),
    ensures
        has_id(placed(entries, updates, samplers, updates.len()), updates[i].id.spec_key()),
{
    placed_extends(entries, updates, samplers, updates.len());
    if updates[i].pos is Some {
        assert(known_at(entries, updates, i));
    }
}

/// Placing updates one after the other places them all: `states` are the textures before each of
/// the updates, and at last those after all of them.
pub proof fn placed_in_turn(
    states: Seq<Seq<((u32, u64), u64)>>,
    updates: Seq<TextureUpdate>,
    samplers: Seq<u64>,
    n: nat,
)
    requires
        states.len() == updates.len() + 1,
        n <= updates.len(),
        forall|i: int|
            0 <= i < updates.len() ==> states[i + 1] == after_update(
                #[trigger] states[i],
                updates[i],
                samplers[i],
            ),
    ensures
        states[n as int] == placed(states[0], updates, samplers, n),
        n < updates.len() ==> creates(states[n as int], updates[n as int]) == creates_at(
            states[0],
            updates,
            samplers,
            n as int,
        ),
    decreases n,
{
    if n > 0 {
        placed_in_turn(states, updates, samplers, (n - 1) as nat);
        assert(states[n - 1 + 1] == after_update(states[n - 1], updates[n - 1], samplers[n - 1]));
    }
}

/// The textures of a user interface.
pub struct GuiTextures {
    textures: IndexMap<(u32, u64), u64>,
    descriptors_dirty: [bool; 2],
}

impl GuiTextures {
    /// The keys of the textures with their samplers, in order.
    pub closed spec fn entries(self) -> Seq<((u32, u64), u64)> {
        id_entries(self.textures)
    }

    /// The frames whose descriptors were not written yet.
    pub closed spec fn dirty(self) -> Seq<bool> {
        self.descriptors_dirty@
    }

    /// No texture is listed twice.
    pub open spec fn wf(self) -> bool {
        ids_distinct(self.entries()) && self.dirty().len() == MAX_FRAMES_IN_FLIGHT
    }

    /// No textures, and no descriptors written.
    pub fn new() -> (textures: Self)
        ensures
            textures.wf(),
            textures.entries() == Seq::<((u32, u64), u64)>::empty(),
            textures.dirty() == seq![true, true],
    {
        let textures = GuiTextures { textures: new_ids(), descriptors_dirty: [true, true] };
        assert(textures.dirty() =~= seq![true, true]);
        textures
    }

    /// The number of a texture.
    pub fn index_of(&self, id: &TextureId) -> (index: Option<usize>)
        ensures
            match index {
                Some(i) => id_at(self.entries(), id.spec_key(), i as int),
                None => !has_id(self.entries(), id.spec_key()),
            },
    {
        id_index(&self.textures, id.key())
    }

    /// The number of textures.
    pub fn len(&self) -> (n: usize)
        ensures
            n == self.entries().len(),
    {
        id_count(&self.textures)
    }

    /// The sampler of a texture.
    pub fn sampler(&self, index: usize) -> (sampler: Option<u64>)
        ensures
            sampler == (if index < self.entries().len() {
                Some(self.entries()[index as int].1)
            } else {
                None
            }),
    {
        match id_entry(&self.textures, index) {
            Some((_, sampler)) => Some(*sampler),
            None => None,
        }
    }

    /// Takes out textures, each of which is replaced by the last one. Returns the places of those
    /// that were there.
    pub fn free(&mut self, free: &Vec<TextureId>) -> (places: Vec<usize>)
        requires
            old(self).wf(),
        ensures
            final(self).wf(),
            final(self).dirty() == old(self).dirty(),
            final(self).entries() == freed(old(self).entries(), free@, free@.len()),
            places@ == freed_places(old(self).entries(), free@, free@.len()),
    {
        let mut places: Vec<usize> = Vec::new();
        let mut n: usize = 0;
        while n < free.len()
            invariant
                n <= free.len(),
                self.wf(),
                self.dirty() == old(self).dirty(),
                self.entries() == freed(old(self).entries(), free@, n as nat),
                places@ == freed_places(old(self).entries(), free@, n as nat),
            decreases free.len() - n,
        {
            let ghost before = self.entries();
            let key = free[n].key();
            match swap_remove_id(&mut self.textures, key) {
                Some((i, _, _)) => {
                    proof {
                        position_unique(before, key, i as int);
                        swap_removed_keeps(before, i as int);
                    }
                    places.push(i);
                },
                None => {},
            }
            n += 1;
        }
        places
    }

    /// The updates can be applied: the sizes can be counted and, where there is anything to upload,
    /// every update of a part is of a known texture.
    pub fn check_updates(&self, updates: &Vec<TextureUpdate>) -> (ok: bool)
        ensures
            ok == (offset_of(updates@, updates@.len()) <= u64::MAX && (offset_of(
                updates@,
                updates@.len(),
            ) > 0 ==> updates_known(self.entries(), updates@))),
    {
        let mut known: bool = true;
        let mut total: u64 = 0;
        let mut i: usize = 0;
        while i < updates.len()
            invariant
                i <= updates.len(),
                total == offset_of(updates@, i as nat),
                known == (forall|k: int|
                    0 <= k < i && (#[trigger] updates@[k]).pos is Some ==> known_at(
                        self.entries(),
                        updates@,
                        k,
                    )),
            decreases updates.len() - i,
        {
            let update = updates[i];
            if update.pos.is_some() && !self.known(updates, i) {
                assert(updates@[i as int].pos is Some);
                known = false;
            }
            assert(update.width * update.height <= 0xffff_ffff * 0xffff_ffff) by (nonlinear_arith)
                requires
                    update.width <= 0xffff_ffff,
                    update.height <= 0xffff_ffff,
            ;
            let pixels: u64 = update.width as u64 * update.height as u64;
            proof {
                offsets_grow(updates@, (i + 1) as nat, updates@.len());
            }
            if pixels > u64::MAX / 4 || pixels * 4 > u64::MAX - total {
                return false;
            }
            total += pixels * 4;
            i += 1;
        }
        total == 0 || known
    }

    fn known(&self, updates: &Vec<TextureUpdate>, i: usize) -> (known: bool)
        requires
            i < updates.len(),
        ensures
            known == known_at(self.entries(), updates@, i as int),
    {
        if self.index_of(&updates[i].id).is_some() {
            return true;
        }
        let mut j: usize = 0;
        while j < i
            invariant
                j <= i < updates.len(),
                !has_id(self.entries(), updates@[i as int].id.spec_key()),
                forall|k: int|
                    0 <= k < j ==> !((#[trigger] updates@[k]).pos is None && updates@[k].id
                        == updates@[i as int].id),
            decreases i - j,
        {
            if updates[j].pos.is_none() && updates[j].id == updates[i].id {
                return true;
            }
            j += 1;
        }
        false
    }
}

/// What an upload of `updates` asks for, where `created` tells which of them created their texture.
pub open spec fn is_upload(
    plan: UploadPlan,
    entries: Seq<((u32, u64), u64)>,
    updates: Seq<TextureUpdate>,
    created: Seq<bool>,
) -> bool {
    &&& plan.transitions@ == transitions_of(entries, updates, created, entries.len())
    &&& plan.copies.len() == updates.len()
    &&& forall|i: int|
        0 <= i < updates.len() ==> copy_of(entries, updates, i, #[trigger] plan.copies@[i])
}

impl GuiTextures {
    /// Starts the upload of textures for a frame, and returns the size of the staging buffer. The
    /// descriptors of the frame have to be written where there is anything to upload.
    pub fn begin_upload(&mut self, updates: &Vec<TextureUpdate>, frame_index: usize) -> (
        total_bytes: u64)
        requires
            old(self).wf(),
            frame_index < MAX_FRAMES_IN_FLIGHT,
            offset_of(updates@, updates@.len()) <= u64::MAX,
        ensures
            final(self).wf(),
            final(self).entries() == old(self).entries(),
            total_bytes == offset_of(updates@, updates@.len()),
            final(self).dirty() == (if total_bytes > 0 {
                old(self).dirty().update(frame_index as int, true)
            } else {
                old(self).dirty()
            }),
    {
        let total_bytes: u64 = Self::total_bytes(updates);
        if total_bytes > 0 {
            self.descriptors_dirty[frame_index] = true;
        }
        total_bytes
    }

    /// An update creates its texture.
    pub fn creates_texture(&self, update: &TextureUpdate) -> (new: bool)
        ensures
            new == creates(self.entries(), *update),
    {
        update.pos.is_none() && self.index_of(&update.id).is_none()
    }

    /// Takes note of the texture that an update created, if it created one.
    pub fn place_update(&mut self, update: &TextureUpdate, sampler: u64)
        requires
            old(self).wf(),
        ensures
            final(self).wf(),
            final(self).dirty() == old(self).dirty(),
            final(self).entries() == after_update(old(self).entries(), *update, sampler),
    {
        if self.creates_texture(update) {
            proof {
                insert_keeps_ids_distinct(self.entries(), update.id.spec_key(), sampler);
            }
            insert_id(&mut self.textures, update.id.key(), sampler);
        }
    }

    /// Plans the upload of textures that were all placed. `created` tells which of the updates
    /// created their texture.
    pub fn plan_upload(&self, updates: &Vec<TextureUpdate>, created: &Vec<bool>) -> (plan: UploadPlan)
        requires
            self.wf(),
            created.len() == updates.len(),
            forall|i: int|
                0 <= i < updates.len() ==> has_id(
                    self.entries(),
                    (#[trigger] updates@[i]).id.spec_key(),
                ),
            offset_of(updates@, updates@.len()) <= u64::MAX,
        ensures
            is_upload(plan, self.entries(), updates@, created@),
    {
        let transitions = self.transitions(updates, created);
        let copies = self.copies(updates);
        UploadPlan { transitions, copies }
    }

    /// The descriptors of a frame have to be written.
    pub fn needs_descriptors(&self, frame_index: usize) -> (dirty: bool)
        requires
            self.wf(),
            frame_index < MAX_FRAMES_IN_FLIGHT,
        ensures
            dirty == self.dirty()[frame_index as int],
    {
        self.descriptors_dirty[frame_index]
    }

    /// Takes note that the descriptors of a frame were written.
    pub fn descriptors_written(&mut self, frame_index: usize)
        requires
            old(self).wf(),
            frame_index < MAX_FRAMES_IN_FLIGHT,
        ensures
            final(self).wf(),
            final(self).entries() == old(self).entries(),
            final(self).dirty() == old(self).dirty().update(frame_index as int, false),
    {
        self.descriptors_dirty[frame_index] = false;
    }

    fn total_bytes(updates: &Vec<TextureUpdate>) -> (total: u64)
        requires
            offset_of(updates@, updates@.len()) <= u64::MAX,
        ensures
            total == offset_of(updates@, updates@.len()),
    {
        let mut total: u64 = 0;
        let mut i: usize = 0;
        while i < updates.len()
            invariant
                i <= updates.len(),
                total == offset_of(updates@, i as nat),
                offset_of(updates@, updates@.len()) <= u64::MAX,
            decreases updates.len() - i,
        {
            proof {
                offsets_grow(updates@, (i + 1) as nat, updates@.len());
            }
            total += Self::update_bytes(&updates[i]);
            i += 1;
        }
        total
    }

    fn update_bytes(update: &TextureUpdate) -> (bytes: u64)
        requires
            update_size(*update) <= u64::MAX,
        ensures
            bytes == update_size(*update),
    {
        assert(update.width * update.height >= 0) by (nonlinear_arith);
        update.width as u64 * update.height as u64 * 4
    }

    fn find_last_update(updates: &Vec<TextureUpdate>, key: (u32, u64)) -> (index: Option<usize>)
        ensures
            match index {
                Some(i) => last_update(updates@, key, updates@.len()) == Some(i as int) && i
                    < updates.len(),
                None => last_update(updates@, key, updates@.len()) is None,
            },
    {
        let mut i: usize = updates.len();
        while i > 0
            invariant
                i <= updates.len(),
                last_update(updates@, key, updates@.len()) == last_update(updates@, key, i as nat),
            decreases i,
        {
            i -= 1;
            let other = updates[i].id.key();
            if other.0 == key.0 && other.1 == key.1 {
                return Some(i);
            }
        }
        None
    }

    fn transitions(&self, updates: &Vec<TextureUpdate>, created: &Vec<bool>) -> (transitions: Vec<
        TextureTransition,
    >)
        requires
            created.len() == updates.len(),
        ensures
            transitions@ == transitions_of(
                self.entries(),
                updates@,
                created@,
                self.entries().len(),
            ),
    {
        let mut transitions: Vec<TextureTransition> = Vec::new();
        let num_textures: usize = self.len();
        let mut t: usize = 0;
        while t < num_textures
            invariant
                t <= num_textures == self.entries().len(),
                created.len() == updates.len(),
                transitions@ == transitions_of(self.entries(), updates@, created@, t as nat),
            decreases num_textures - t,
        {
            match id_entry(&self.textures, t) {
                Some((key, _)) => match Self::find_last_update(updates, *key) {
                    Some(i) => {
                        let layout: i32 = if created[i] {
                            LAYOUT_UNDEFINED
                        } else {
                            LAYOUT_SHADER_READ_ONLY_OPTIMAL
                        };
                        transitions.push(TextureTransition { texture: t, layout });
                    },
                    None => {},
                },
                None => {},
            }
            t += 1;
        }
        transitions
    }

    fn copies(&self, updates: &Vec<TextureUpdate>) -> (copies: Vec<TextureCopy>)
        requires
            forall|i: int|
                0 <= i < updates.len() ==> has_id(
                    self.entries(),
                    (#[trigger] updates@[i]).id.spec_key(),
                ),
            offset_of(updates@, updates@.len()) <= u64::MAX,
        ensures
            copies.len() == updates.len(),
            forall|i: int|
                0 <= i < updates.len() ==> copy_of(
                    self.entries(),
                    updates@,
                    i,
                    #[trigger] copies@[i],
                ),
    {
        let mut copies: Vec<TextureCopy> = Vec::new();
        let mut offset: u64 = 0;
        let mut i: usize = 0;
        while i < updates.len()
            invariant
                i <= updates.len(),
                forall|i: int|
                    0 <= i < updates.len() ==> has_id(
                        self.entries(),
                        (#[trigger] updates@[i]).id.spec_key(),
                    ),
                offset_of(updates@, updates@.len()) <= u64::MAX,
                offset == offset_of(updates@, i as nat),
                copies.len() == i,
                forall|k: int|
                    0 <= k < i ==> copy_of(self.entries(), updates@, k, #[trigger] copies@[k]),
            decreases updates.len() - i,
        {
            proof {
                offsets_grow(updates@, (i + 1) as nat, updates@.len());
            }
            let update = updates[i];
            let (x, y): (i32, i32) = match update.pos {
                Some(pos) => pos,
                None => (0, 0),
            };
            match self.index_of(&update.id) {
                Some(texture) => {
                    copies.push(
                        TextureCopy {
                            texture,
                            buffer_offset: offset,
                            x,
                            y,
                            width: update.width,
                            height: update.height,
                        },
                    );
                },
                None => {},
            }
            offset += Self::update_bytes(&update);
            i += 1;
        }
        copies
    }
}

/// In the staging buffer the pixels of every update follow those of the update before it, with four
/// bytes for each pixel.
pub proof fn pixels_take_four_bytes(updates: Seq<TextureUpdate>, i: nat)
    requires
        i < updates.len(),
    ensures
        offset_of(updates, 0) == 0,
        offset_of(updates, i + 1) == offset_of(updates, i) + 4 * (updates[i as int].width
            * updates[i as int].height),
{
    let (w, h) = (updates[i as int].width as int, updates[i as int].height as int);
    assert(w * h * 4 == 4 * (w * h)) by (nonlinear_arith);
    assert(w * h >= 0) by (nonlinear_arith)
        requires
            w >= 0,
            h >= 0,
    ;
}

/// The pixels of an update are copied to the texture that it names: to the place that it gives, or
/// to the corner of the texture where it is of the whole of it, and as many as it has.
pub proof fn pixels_go_to_their_texture(
    entries: Seq<((u32, u64), u64)>,
    updates: Seq<TextureUpdate>,
    i: int,
    copy: TextureCopy,
)
    requires
        0 <= i < updates.len(),
        copy_of(entries, updates, i, copy),
    ensures
        copy.texture < entries.len(),
        entries[copy.texture as int].0 == (match updates[i].id {
            TextureId::Managed(id) => (0u32, id),
            TextureId::User(id) => (1u32, id),
        }),
        match updates[i].pos {
            Some((x, y)) => copy.x == x && copy.y == y,
            None => copy.x == 0 && copy.y == 0,
        },
        copy.width == updates[i].width,
        copy.height == updates[i].height,
{
}

/// Only an update of a whole texture makes a new one, and only where no texture has its name; the
/// new one comes last and has the sampler of the update.
pub proof fn whole_updates_make_textures(
    entries: Seq<((u32, u64), u64)>,
    update: TextureUpdate,
    sampler: u64,
)
    ensures
        ({
            let key = match update.id {
                TextureId::Managed(id) => (0u32, id),
                TextureId::User(id) => (1u32, id),
            };
            let known = exists|i: int| 0 <= i < entries.len() && (#[trigger] entries[i]).0 == key;
            let after = after_update(entries, update, sampler);
            &&& update.pos is None && !known ==> after == entries.push((key, sampler))
            &&& update.pos is Some || known ==> after == entries
        }),
{
    let key = update.id.spec_key();
    if has_id(entries, key) {
        let i = choose|i: int| id_at(entries, key, i);
        assert(entries[i].0 == key);
    }
    if exists|i: int| 0 <= i < entries.len() && (#[trigger] entries[i]).0 == key {
        let i = choose|i: int| 0 <= i < entries.len() && (#[trigger] entries[i]).0 == key;
        assert(id_at(entries, key, i));
    }
}

/// Update `i` is the last of a texture.
pub open spec fn updated_last(updates: Seq<TextureUpdate>, key: (u32, u64), i: int) -> bool {
    &&& 0 <= i < updates.len()
    &&& updates[i].id.spec_key() == key
    &&& forall|j: int|
        i < j < updates.len() ==> (#[trigger] updates[j]).id.spec_key() != key
}

proof fn last_update_is_last(updates: Seq<TextureUpdate>, key: (u32, u64), n: nat)
    requires
        n <= updates.len(),
    ensures
        match last_update(updates, key, n) {
            Some(i) => 0 <= i < n && updates[i].id.spec_key() == key && forall|j: int|
                i < j < n ==> (#[trigger] updates[j]).id.spec_key() != key,
            None => forall|j: int| 0 <= j < n ==> (#[trigger] updates[j]).id.spec_key() != key,
        },
    decreases n,
{
    if n > 0 {
        last_update_is_last(updates, key, (n - 1) as nat);
    }
}

/// Every texture that is updated, and no other, is made ready for a copy, once, in order: from no
/// layout at all where its last update made it, and from the one that shaders read otherwise.
pub proof fn updated_textures_are_made_ready(
    entries: Seq<((u32, u64), u64)>,
    updates: Seq<TextureUpdate>,
    created: Seq<bool>,
    t: nat,
)
    requires
        t <= entries.len() <= usize::MAX,
    ensures
        ({
            let all = transitions_of(entries, updates, created, t);
            &&& forall|k: int|
                0 <= k < all.len() ==> (#[trigger] all[k]).texture < t && exists|i: int|
                    #[trigger] updated_last(updates, entries[all[k].texture as int].0, i)
                        && all[k].layout == (if created[i] {
                        0i32
                    } else {
                        5i32
                    })
            &&& forall|k: int, l: int|
                0 <= k < l < all.len() ==> (#[trigger] all[k]).texture < (
                #[trigger] all[l]).texture
            &&& forall|e: int, i: int|
                0 <= e < t && #[trigger] updated_last(updates, entries[e].0, i) ==> exists|k: int|
                    0 <= k < all.len() && (#[trigger] all[k]).texture == e
        }),
    decreases t,
{
    if t > 0 {
        let m = (t - 1) as nat;
        updated_textures_are_made_ready(entries, updates, created, m);
        let before = transitions_of(entries, updates, created, m);
        let all = transitions_of(entries, updates, created, t);
        let key = entries[t - 1].0;
        last_update_is_last(updates, key, updates.len());
        assert forall|k: int| 0 <= k < all.len() implies (#[trigger] all[k]).texture < t && exists|
            i: int,
        | #[trigger]
            updated_last(updates, entries[all[k].texture as int].0, i) && all[k].layout == (
            if created[i] {
                0i32
            } else {
                5i32
            }) by {
            if k < before.len() {
                assert(all[k] == before[k]);
            } else {
                let i = last_update(updates, key, updates.len())->0;
                assert(updated_last(updates, entries[all[k].texture as int].0, i));
            }
        }
        assert forall|e: int, i: int|
            0 <= e < t && #[trigger] updated_last(updates, entries[e].0, i) implies exists|k: int|
            0 <= k < all.len() && (#[trigger] all[k]).texture == e by {
            if e < m {
                let k = choose|k: int| 0 <= k < before.len() && (#[trigger] before[k]).texture == e;
                assert(all[k].texture == e);
            } else {
                assert(updates[i].id.spec_key() == key);
                assert(all[all.len() - 1].texture == e);
            }
        }
    }
}

/// Freeing textures takes out those that are named, and no others; what stays keeps its sampler.
pub proof fn only_named_textures_are_freed(
    entries: Seq<((u32, u64), u64)>,
    free: Seq<TextureId>,
    n: nat,
    key: (u32, u64),
    sampler: u64,
)
    requires
        ids_distinct(entries),
        n <= free.len(),
    ensures
        ids_distinct(freed(entries, free, n)),
        freed(entries, free, n).contains((key, sampler)) <==> entries.contains((key, sampler)) && (
        forall|j: int| 0 <= j < n ==> (#[trigger] free[j]).spec_key() != key),
    decreases n,
{
    if n > 0 {
        let m = (n - 1) as nat;
        only_named_textures_are_freed(entries, free, m, key, sampler);
        let before = freed(entries, free, m);
        let gone = free[n - 1].spec_key();
        if has_id(before, gone) {
            let p = position(before, gone);
            assert(id_at(before, gone, p));
            let after = swap_removed(before, p);
            swap_removed_keeps(before, p);
            if after.contains((key, sampler)) {
                let i = after.index_of((key, sampler));
                assert(id_at(after, key, i));
                assert(has_id(after, key));
                assert(key != gone);
                let b = if i == p {
                    before.len() - 1
                } else {
                    i
                };
                assert(before[b] == (key, sampler));
            }
            if before.contains((key, sampler)) && key != gone {
                let b = before.index_of((key, sampler));
                assert(b != p);
                let i = if b == before.len() - 1 {
                    p
                } else {
                    b
                };
                assert(after[i] == (key, sampler));
            }
        } else if before.contains((key, sampler)) {
            let b = before.index_of((key, sampler));
            assert(id_at(before, key, b));
        }
    }
}

} // verus!
