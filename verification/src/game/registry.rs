//! The effect registry as it lies in the game's memory: a ring of nodes, each
//! leading through a wrapper to one record.

use crate::game::game_data::RegistryLayout;
use crate::memory::{
    address_space, decode_u32, decode_u64, le_u32, le_u64, lemma_block_fits, lemma_block_len,
    lemma_readable_addresses_are_few, MemoryView,
};
use vstd::prelude::*;

verus! {

/// The bytes that a registry node takes.
pub const NODE_SIZE: usize = 0x20;

/// The bytes that a record wrapper takes.
pub const WRAPPER_SIZE: usize = 0x10;

/// What a registry node holds: its neighbours, its identifier and the address
/// of the wrapper of its record. The node with identifier 0 ends the list.
#[derive(Clone, Copy, Debug, PartialEq, Eq)]
pub struct FxrListNode {
    pub next: u64,
    pub prev: u64,
    pub id: u32,
    pub fxr_wrapper: u64,
}

/// What a record wrapper holds: the address of the record, and a field that
/// nothing here reads.
#[derive(Clone, Copy, Debug, PartialEq, Eq)]
pub struct FxrWrapper {
    pub fxr: u64,
    pub unk: u64,
}

/// The node that the 0x20 bytes `b` spell.
pub open spec fn decode_node(b: Seq<u8>) -> FxrListNode
    recommends
        b.len() == NODE_SIZE,
{
    FxrListNode {
        next: le_u64(b.subrange(0, 8)) as u64,
        prev: le_u64(b.subrange(8, 16)) as u64,
        id: le_u32(b.subrange(16, 20)) as u32,
        fxr_wrapper: le_u64(b.subrange(24, 32)) as u64,
    }
}

/// The wrapper that the 0x10 bytes `b` spell.
pub open spec fn decode_wrapper(b: Seq<u8>) -> FxrWrapper
    recommends
        b.len() == WRAPPER_SIZE,
{
    FxrWrapper { fxr: le_u64(b.subrange(0, 8)) as u64, unk: le_u64(b.subrange(8, 16)) as u64 }
}

/// The node at `addr`: none at the null address, none where the view does not
/// hold its bytes.
pub open spec fn node_at(view: MemoryView<'_>, addr: u64) -> Option<FxrListNode> {
    if addr == 0 {
        None
    } else {
        match view.block(addr as int, NODE_SIZE as int) {
            Some(b) => Some(decode_node(b)),
            None => None,
        }
    }
}

/// The wrapper at `addr`: none at the null address, none where the view does
/// not hold its bytes.
pub open spec fn wrapper_at(view: MemoryView<'_>, addr: u64) -> Option<FxrWrapper> {
    if addr == 0 {
        None
    } else {
        match view.block(addr as int, WRAPPER_SIZE as int) {
            Some(b) => Some(decode_wrapper(b)),
            None => None,
        }
    }
}

impl FxrListNode {
    /// Reads the node at `addr`.
    pub fn read(view: &MemoryView<'_>, addr: u64) -> (r: Option<FxrListNode>)
        ensures
            r == node_at(*view, addr),
    {
        if addr == 0 {
            return None;
        }
        match view.slice(addr, NODE_SIZE) {
            Some(b) => Some(
                FxrListNode {
                    next: decode_u64(b, 0),
                    prev: decode_u64(b, 8),
                    id: decode_u32(b, 16),
                    fxr_wrapper: decode_u64(b, 24),
                },
            ),
            None => None,
        }
    }
}

impl FxrWrapper {
    /// Reads the wrapper at `addr`.
    pub fn read(view: &MemoryView<'_>, addr: u64) -> (r: Option<FxrWrapper>)
        ensures
            r == wrapper_at(*view, addr),
    {
        if addr == 0 {
            return None;
        }
        match view.slice(addr, WRAPPER_SIZE) {
            Some(b) => Some(FxrWrapper { fxr: decode_u64(b, 0), unk: decode_u64(b, 8) }),
            None => None,
        }
    }
}

/// The addresses of the nodes that a walk yields: it starts behind the node at
/// `current`, follows the forward links, and ends before the first node that is
/// not there or has identifier 0, or after `budget` nodes.
pub open spec fn walk(view: MemoryView<'_>, current: u64, budget: nat) -> Seq<u64>
    decreases budget,
{
    if budget == 0 {
        Seq::empty()
    } else {
        match node_at(view, current) {
            None => Seq::empty(),
            Some(previous) => match node_at(view, previous.next) {
                None => Seq::empty(),
                Some(node) => if node.id == 0 {
                    Seq::empty()
                } else {
                    seq![previous.next] + walk(view, previous.next, (budget - 1) as nat)
                },
            },
        }
    }
}

/// A walk over the registry, one node at a time.
#[derive(Clone, Copy, Debug)]
pub struct FxrDefinitionIterator {
    pub current: u64,
    pub budget: u64,
}

impl FxrDefinitionIterator {
    /// The addresses that are still to come.
    pub open spec fn remaining(&self, view: MemoryView<'_>) -> Seq<u64> {
        walk(view, self.current, self.budget as nat)
    }

    /// The address of the next node, or `None` at the end of the list. After
    /// the end nothing more comes.
    pub fn next(&mut self, view: &MemoryView<'_>) -> (r: Option<u64>)
        ensures
            old(self).remaining(*view).len() == 0 ==> r is None && final(self).remaining(
                *view,
            ).len() == 0,
            old(self).remaining(*view).len() > 0 ==> r == Some(old(self).remaining(*view)[0])
                && final(self).remaining(*view) == old(self).remaining(*view).drop_first(),
    {
        if self.budget == 0 {
            return None;
        }
        let previous = match FxrListNode::read(view, self.current) {
            Some(node) => node,
            None => {
                self.budget = 0;
                return None;
            },
        };
        let node = match FxrListNode::read(view, previous.next) {
            Some(node) => node,
            None => {
                self.budget = 0;
                return None;
            },
        };
        if node.id == 0 {
            self.budget = 0;
            return None;
        }
        proof {
            let rest = walk(*view, previous.next, (self.budget - 1) as nat);
            assert((seq![previous.next] + rest).drop_first() =~= rest);
        }
        self.current = previous.next;
        self.budget = self.budget - 1;
        Some(self.current)
    }
}

/// `x` rounded up to a multiple of 8.
pub open spec fn align8(x: int) -> int {
    (x + 7) / 8 * 8
}

/// Where the effects singleton keeps the address of its scene control: behind
/// an 8-byte table address and the unnamed stretch.
pub open spec fn scene_ctrl_offset(layout: RegistryLayout) -> int {
    align8(8 + layout.cssfx_unk_size)
}

/// Where the scene control keeps the address of its resource manager: behind
/// five 8-byte fields.
pub open spec fn resource_manager_offset() -> int {
    0x28
}

/// Where the resource manager keeps the address of its resource container:
/// behind an 8-byte table address and the unnamed stretch.
pub open spec fn resource_container_offset(layout: RegistryLayout) -> int {
    align8(8 + layout.gfx_manager_unk_size)
}

/// Where the resource container keeps the address of the head of the
/// registry: behind its padding.
pub open spec fn list_head_offset(layout: RegistryLayout) -> int {
    align8(layout.res_con_pad_size as int)
}

/// The address kept at `base + offset`.
pub open spec fn pointer_at(view: MemoryView<'_>, base: u64, offset: int) -> Option<u64> {
    if base + offset < address_space() {
        view.u64_at(base + offset)
    } else {
        None
    }
}

/// The address of the head of the registry, reached from the effects singleton
/// at `cssfx` through scene control, resource manager and resource container.
pub open spec fn registry_head(view: MemoryView<'_>, cssfx: u64, layout: RegistryLayout) -> Option<
    u64,
> {
    match pointer_at(view, cssfx, scene_ctrl_offset(layout)) {
        None => None,
        Some(scene_ctrl) => match pointer_at(view, scene_ctrl, resource_manager_offset()) {
            None => None,
            Some(manager) => match pointer_at(view, manager, resource_container_offset(layout)) {
                None => None,
                Some(container) => pointer_at(view, container, list_head_offset(layout)),
            },
        },
    }
}

/// The addresses of the registry's nodes, in link order. The walk visits no
/// more nodes than the view has bytes, so that it ends on a ring without
/// sentinel too.
pub open spec fn registry(view: MemoryView<'_>, cssfx: u64, layout: RegistryLayout) -> Seq<u64> {
    match registry_head(view, cssfx, layout) {
        Some(head) => walk(view, head, view.extent()),
        None => Seq::empty(),
    }
}

fn aligned(size: u64, lead: u64) -> (r: Option<u64>)
    requires
        lead <= 8,
    ensures
        r == if align8(lead + size) <= u64::MAX {
            Some(align8(lead + size) as u64)
        } else {
            None
        },
{
    match size.checked_add(lead + 7) {
        Some(padded) => Some(padded / 8 * 8),
        None => None,
    }
}

fn read_pointer(view: &MemoryView<'_>, base: u64, offset: Option<u64>) -> (r: Option<u64>)
    ensures
        offset matches Some(o) ==> r == pointer_at(*view, base, o as int),
        offset is None ==> r is None,
{
    match offset {
        None => None,
        Some(o) => match base.checked_add(o) {
            Some(addr) => view.read_u64(addr),
            None => None,
        },
    }
}

/// The effects singleton of the running game: its address, and the layout of
/// what hangs from it.
#[derive(Clone, Copy, Debug, PartialEq, Eq)]
pub struct CSSfx {
    pub address: u64,
    pub layout: RegistryLayout,
}

impl CSSfx {
    /// A walk over the registry that hangs from this singleton. Where the head
    /// of the registry cannot be reached, the walk is empty.
    pub fn fxr_definition_iter(&self, view: &MemoryView<'_>) -> (walker: FxrDefinitionIterator)
        ensures
            walker.remaining(*view) == registry(*view, self.address, self.layout),
            match registry_head(*view, self.address, self.layout) {
                Some(head) => walker.current == head && walker.budget == view.extent(),
                None => walker.budget == 0,
            },
    {
        let nothing = FxrDefinitionIterator { current: 0, budget: 0 };
        let scene_ctrl = match read_pointer(
            view,
            self.address,
            aligned(self.layout.cssfx_unk_size, 8),
        ) {
            Some(p) => p,
            None => {
                return nothing;
            },
        };
        let manager = match read_pointer(view, scene_ctrl, Some(0x28)) {
            Some(p) => p,
            None => {
                return nothing;
            },
        };
        let container = match read_pointer(
            view,
            manager,
            aligned(self.layout.gfx_manager_unk_size, 8),
        ) {
            Some(p) => p,
            None => {
                return nothing;
            },
        };
        let head = match read_pointer(view, container, aligned(self.layout.res_con_pad_size, 0)) {
            Some(p) => p,
            None => {
                return nothing;
            },
        };
        FxrDefinitionIterator { current: head, budget: view.mapped_bytes() }
    }
}

/// The `u16` kept at `base + offset`.
pub open spec fn u16_field(view: MemoryView<'_>, base: u64, offset: int) -> Option<u16> {
    if base + offset < address_space() {
        view.u16_at(base + offset)
    } else {
        None
    }
}

/// The `u32` kept at `base + offset`.
pub open spec fn u32_field(view: MemoryView<'_>, base: u64, offset: int) -> Option<u32> {
    if base + offset < address_space() {
        view.u32_at(base + offset)
    } else {
        None
    }
}

/// Where a record keeps its version tag.
pub const VERSION_OFFSET: u64 = 0x6;

/// The length of the record at `record`: the offset of its last section plus
/// four bytes for each entry of that section. The two numbers stand at 0x80 and
/// 0x84 in a record of version 5, at 0x60 and 0x64 in one of version 4; a record
/// of another version has no length.
pub open spec fn record_length(view: MemoryView<'_>, record: u64) -> Option<int> {
    match u16_field(view, record, VERSION_OFFSET as int) {
        None => None,
        Some(version) => {
            if version == 5 || version == 4 {
                let at: int = if version == 5 {
                    0x80
                } else {
                    0x60
                };
                match u32_field(view, record, at) {
                    None => None,
                    Some(offset) => match u32_field(view, record, at + 4) {
                        None => None,
                        Some(count) => Some(offset + 4 * count),
                    },
                }
            } else {
                None
            }
        },
    }
}

/// The bytes of the record at `record`, as long as its header says.
pub open spec fn record_at(view: MemoryView<'_>, record: u64) -> Option<Seq<u8>> {
    match record_length(view, record) {
        Some(length) => view.block(record as int, length),
        None => None,
    }
}

fn read_u16_field(view: &MemoryView<'_>, base: u64, offset: u64) -> (r: Option<u16>)
    ensures
        r == u16_field(*view, base, offset as int),
{
    match base.checked_add(offset) {
        Some(addr) => view.read_u16(addr),
        None => None,
    }
}

fn read_u32_field(view: &MemoryView<'_>, base: u64, offset: u64) -> (r: Option<u32>)
    ensures
        r == u32_field(*view, base, offset as int),
{
    match base.checked_add(offset) {
        Some(addr) => view.read_u32(addr),
        None => None,
    }
}

/// Copies the record at `fxr_ptr` out of the view. The length comes from the
/// record's own header; a record of an unknown version, or one that the view
/// does not hold to its end, gives `None`.
pub fn fxr_at(view: &MemoryView<'_>, fxr_ptr: u64) -> (r: Option<Vec<u8>>)
    ensures
        r is Some <==> record_at(*view, fxr_ptr) is Some,
        r matches Some(bytes) ==> record_at(*view, fxr_ptr) == Some(bytes@),
{
    let version = match read_u16_field(view, fxr_ptr, VERSION_OFFSET) {
        Some(v) => v,
        None => {
            return None;
        },
    };
    let at: u64 = if version == 5 {
        0x80
    } else if version == 4 {
        0x60
    } else {
        return None;
    };
    let ll_offset = match read_u32_field(view, fxr_ptr, at) {
        Some(v) => v,
        None => {
            return None;
        },
    };
    let ll_count = match read_u32_field(view, fxr_ptr, at + 4) {
        Some(v) => v,
        None => {
            return None;
        },
    };
    let total_size: u64 = ll_offset as u64 + 4 * (ll_count as u64);
    proof {
        lemma_block_fits(view.regions@, 0, fxr_ptr as int, total_size as int);
    }
    if total_size > usize::MAX as u64 {
        return None;
    }
    view.read_bytes(fxr_ptr, total_size as usize)
}

/// The first of the nodes at `nodes` whose identifier is `id`.
pub open spec fn find_node(view: MemoryView<'_>, nodes: Seq<u64>, id: u32) -> Option<FxrListNode>
    decreases nodes.len(),
{
    if nodes.len() == 0 {
        None
    } else {
        let first = node_at(view, nodes[0]);
        if first is Some && first->0.id == id {
            first
        } else {
            find_node(view, nodes.drop_first(), id)
        }
    }
}

/// The identifiers of the nodes at `nodes`, in the same order.
pub open spec fn ids_of(view: MemoryView<'_>, nodes: Seq<u64>) -> Seq<u32>
    decreases nodes.len(),
{
    if nodes.len() == 0 {
        Seq::empty()
    } else {
        let before = ids_of(view, nodes.drop_last());
        match node_at(view, nodes.last()) {
            Some(node) => before.push(node.id),
            None => before,
        }
    }
}

/// The nodes at `nodes` by identifier. Of two nodes with one identifier the
/// later one stays.
pub open spec fn index_nodes(view: MemoryView<'_>, nodes: Seq<u64>) -> Map<u32, FxrListNode>
    decreases nodes.len(),
{
    if nodes.len() == 0 {
        Map::empty()
    } else {
        let before = index_nodes(view, nodes.drop_last());
        match node_at(view, nodes.last()) {
            Some(node) => before.insert(node.id, node),
            None => before,
        }
    }
}

/// The record that `node` leads to through its wrapper.
pub open spec fn record_of(view: MemoryView<'_>, node: FxrListNode) -> Option<Seq<u8>> {
    match wrapper_at(view, node.fxr_wrapper) {
        Some(wrapper) => record_at(view, wrapper.fxr),
        None => None,
    }
}

/// `nodes` are the addresses of real nodes, linked one to the next from the
/// node at `head` on, and the last of them, or the node at `head` where there is
/// none, is linked to the sentinel at `sentinel`.
pub open spec fn is_chain(view: MemoryView<'_>, head: u64, nodes: Seq<u64>, sentinel: u64) -> bool {
    let stops = nodes.push(sentinel);
    &&& node_at(view, head) matches Some(first) && first.next == stops[0]
    &&& forall|i: int|
        #![trigger nodes[i]]
        0 <= i < nodes.len() ==> (node_at(view, nodes[i]) matches Some(node) && node.id != 0
            && node.next == stops[i + 1])
    &&& node_at(view, sentinel) matches Some(last) && last.id == 0
}

/// A walk with budget for every node of a chain yields the chain.
proof fn lemma_walk_follows_chain(
    view: MemoryView<'_>,
    head: u64,
    nodes: Seq<u64>,
    sentinel: u64,
    budget: nat,
)
    requires
        is_chain(view, head, nodes, sentinel),
        budget >= nodes.len(),
    ensures
        walk(view, head, budget) == nodes,
    decreases nodes.len(),
{
    let stops = nodes.push(sentinel);
    if nodes.len() == 0 {
        assert(stops[0] == sentinel);
        assert(walk(view, head, budget) =~= nodes);
    } else {
        let rest = nodes.drop_first();
        assert(stops[0] == nodes[0]);
        assert(node_at(view, nodes[0]) is Some);
        assert(is_chain(view, nodes[0], rest, sentinel)) by {
            assert(rest.push(sentinel) =~= stops.drop_first());
            assert forall|i: int| 0 <= i < rest.len() implies (node_at(
                view,
                #[trigger] rest[i],
            ) matches Some(node) && node.id != 0 && node.next == rest.push(sentinel)[i + 1]) by {
                assert(rest[i] == nodes[i + 1]);
            }
        }
        lemma_walk_follows_chain(view, nodes[0], rest, sentinel, (budget - 1) as nat);
        assert(seq![nodes[0]] + rest =~= nodes);
    }
}

/// Two stops of a chain with one address are followed by stops with one
/// address.
proof fn lemma_chain_shift(
    view: MemoryView<'_>,
    head: u64,
    nodes: Seq<u64>,
    sentinel: u64,
    i: int,
    j: int,
    k: int,
)
    requires
        is_chain(view, head, nodes, sentinel),
        0 <= i < j,
        0 <= k,
        j + k <= nodes.len(),
        nodes.push(sentinel)[i] == nodes.push(sentinel)[j],
    ensures
        nodes.push(sentinel)[i + k] == nodes.push(sentinel)[j + k],
    decreases k,
{
    if k > 0 {
        lemma_chain_shift(view, head, nodes, sentinel, i, j, k - 1);
        let stops = nodes.push(sentinel);
        assert(stops[i + k - 1] == nodes[i + k - 1]);
        assert(stops[j + k - 1] == nodes[j + k - 1]);
    }
}

/// The stops of a chain, the sentinel among them, have addresses that differ
/// from one another.
proof fn lemma_chain_is_distinct(view: MemoryView<'_>, head: u64, nodes: Seq<u64>, sentinel: u64)
    requires
        is_chain(view, head, nodes, sentinel),
    ensures
        nodes.push(sentinel).no_duplicates(),
{
    let stops = nodes.push(sentinel);
    let n = nodes.len() as int;
    assert forall|i: int, j: int|
        0 <= i < stops.len() && 0 <= j < stops.len() && i != j implies stops[i] != stops[j] by {
        let (low, high) = if i < j {
            (i, j)
        } else {
            (j, i)
        };
        if stops[low] == stops[high] {
            lemma_chain_shift(view, head, nodes, sentinel, low, high, n - high);
            let at = low + n - high;
            assert(stops[at] == nodes[at]);
            assert(stops[n] == sentinel);
            assert(node_at(view, nodes[at]) is Some);
        }
    }
}

/// The walk over a list of real nodes that ends in a sentinel visits exactly
/// those nodes, in link order, and not the sentinel.
pub proof fn lemma_walk_visits_chain(
    view: MemoryView<'_>,
    head: u64,
    nodes: Seq<u64>,
    sentinel: u64,
)
    requires
        is_chain(view, head, nodes, sentinel),
    ensures
        walk(view, head, view.extent()) == nodes,
        !nodes.contains(sentinel),
{
    let stops = nodes.push(sentinel);
    lemma_chain_is_distinct(view, head, nodes, sentinel);
    assert forall|i: int| 0 <= i < stops.len() implies (#[trigger] stops[i]) != 0 && view.block(
        stops[i] as int,
        NODE_SIZE as int,
    ) is Some by {
        if i < nodes.len() {
            assert(stops[i] == nodes[i]);
            assert(node_at(view, nodes[i]) is Some);
        } else {
            assert(stops[i] == sentinel);
        }
    }
    lemma_readable_addresses_are_few(view, stops, NODE_SIZE as int);
    lemma_walk_follows_chain(view, head, nodes, sentinel, view.extent());
    if nodes.contains(sentinel) {
        let i = choose|i: int| 0 <= i < nodes.len() && nodes[i] == sentinel;
        assert(stops[i] == nodes[i]);
        assert(stops[nodes.len() as int] == sentinel);
    }
}

/// The identifiers listed for a chain are those of its nodes, one for each.
pub proof fn lemma_ids_of_chain(view: MemoryView<'_>, head: u64, nodes: Seq<u64>, sentinel: u64)
    requires
        is_chain(view, head, nodes, sentinel),
    ensures
        ids_of(view, nodes).len() == nodes.len(),
        forall|i: int|
            0 <= i < nodes.len() ==> ids_of(view, nodes)[i] == node_at(
                view,
                #[trigger] nodes[i],
            )->0.id,
{
    lemma_ids_of_readable(view, nodes);
}

/// The identifiers listed for nodes that are all there are those of the
/// nodes, one for each.
proof fn lemma_ids_of_readable(view: MemoryView<'_>, nodes: Seq<u64>)
    requires
        forall|i: int| 0 <= i < nodes.len() ==> node_at(view, #[trigger] nodes[i]) is Some,
    ensures
        ids_of(view, nodes).len() == nodes.len(),
        forall|i: int|
            0 <= i < nodes.len() ==> ids_of(view, nodes)[i] == node_at(
                view,
                #[trigger] nodes[i],
            )->0.id,
    decreases nodes.len(),
{
    if nodes.len() > 0 {
        let before = nodes.drop_last();
        assert forall|i: int| 0 <= i < before.len() implies node_at(
            view,
            #[trigger] before[i],
        ) is Some by {
            assert(before[i] == nodes[i]);
        }
        lemma_ids_of_readable(view, before);
        assert(node_at(view, nodes[nodes.len() - 1]) is Some);
        assert forall|i: int| 0 <= i < nodes.len() implies ids_of(view, nodes)[i] == node_at(
            view,
            #[trigger] nodes[i],
        )->0.id by {
            if i < before.len() {
                assert(before[i] == nodes[i]);
            }
        }
    }
}

/// A record of version 5 whose header gives `offset` and `count` decodes to
/// exactly `offset + 4 * count` bytes: those that the view holds at its address.
pub proof fn lemma_version_5_length(
    view: MemoryView<'_>,
    record: u64,
    offset: u32,
    count: u32,
    bytes: Seq<u8>,
)
    requires
        u16_field(view, record, VERSION_OFFSET as int) == Some(5u16),
        u32_field(view, record, 0x80) == Some(offset),
        u32_field(view, record, 0x84) == Some(count),
        view.block(record as int, offset + 4 * count) == Some(bytes),
    ensures
        record_at(view, record) == Some(bytes),
        bytes.len() == offset + 4 * count,
{
    lemma_block_len(view.regions@, 0, record as int, offset + 4 * count);
}

/// A record of version 4 whose header gives `offset` and `count` decodes to
/// exactly `offset + 4 * count` bytes: those that the view holds at its address.
pub proof fn lemma_version_4_length(
    view: MemoryView<'_>,
    record: u64,
    offset: u32,
    count: u32,
    bytes: Seq<u8>,
)
    requires
        u16_field(view, record, VERSION_OFFSET as int) == Some(4u16),
        u32_field(view, record, 0x60) == Some(offset),
        u32_field(view, record, 0x64) == Some(count),
        view.block(record as int, offset + 4 * count) == Some(bytes),
    ensures
        record_at(view, record) == Some(bytes),
        bytes.len() == offset + 4 * count,
{
    lemma_block_len(view.regions@, 0, record as int, offset + 4 * count);
}

/// A record of a version other than 4 and 5 does not decode.
pub proof fn lemma_unknown_version(view: MemoryView<'_>, record: u64)
    requires
        u16_field(view, record, VERSION_OFFSET as int) != Some(4u16),
        u16_field(view, record, VERSION_OFFSET as int) != Some(5u16),
    ensures
        record_at(view, record) is None,
{
}

/// The node found carries the identifier asked for and is the first of the
/// nodes that does.
pub proof fn lemma_found_is_first(view: MemoryView<'_>, nodes: Seq<u64>, id: u32)
    ensures
        find_node(view, nodes, id) matches Some(found) ==> found.id == id && exists|i: int|
            0 <= i < nodes.len() && node_at(view, #[trigger] nodes[i]) == Some(found)
                && forall|j: int|
                0 <= j < i ==> !(node_at(view, #[trigger] nodes[j]) matches Some(other)
                    && other.id == id),
    decreases nodes.len(),
{
    if nodes.len() > 0 {
        let first = node_at(view, nodes[0]);
        if first is Some && first->0.id == id {
            assert(node_at(view, nodes[0]) == Some(first->0));
        } else {
            let rest = nodes.drop_first();
            lemma_found_is_first(view, rest, id);
            if find_node(view, rest, id) is Some {
                let found = find_node(view, rest, id)->0;
                let i = choose|i: int|
                    0 <= i < rest.len() && node_at(view, #[trigger] rest[i]) == Some(found)
                        && forall|j: int|
                        0 <= j < i ==> !(node_at(view, #[trigger] rest[j]) matches Some(other)
                            && other.id == id);
                assert(nodes[i + 1] == rest[i]);
                assert forall|j: int| 0 <= j < i + 1 implies !(node_at(
                    view,
                    #[trigger] nodes[j],
                ) matches Some(other) && other.id == id) by {
                    if j > 0 {
                        assert(nodes[j] == rest[j - 1]);
                    }
                }
            }
        }
    }
}

/// An identifier that none of the nodes carries is not found among them.
pub proof fn lemma_absent_id(view: MemoryView<'_>, nodes: Seq<u64>, id: u32)
    requires
        !ids_of(view, nodes).contains(id),
    ensures
        find_node(view, nodes, id) is None,
    decreases nodes.len(),
{
    if nodes.len() > 0 {
        lemma_ids_split(view, nodes);
        let first = ids_of(view, nodes.take(1));
        let rest = ids_of(view, nodes.drop_first());
        assert(nodes.take(1).drop_last() =~= Seq::<u64>::empty());
        assert forall|k: int| 0 <= k < rest.len() implies rest[k] != id by {
            assert((first + rest)[first.len() + k] == rest[k]);
        }
        if node_at(view, nodes[0]) is Some {
            assert(nodes.take(1).last() == nodes[0]);
            assert(ids_of(view, nodes.take(1).drop_last()) =~= Seq::<u32>::empty());
            assert(first =~= seq![node_at(view, nodes[0])->0.id]);
            assert(first[0] == node_at(view, nodes[0])->0.id);
            assert((first + rest)[0] == first[0]);
        }
        lemma_absent_id(view, nodes.drop_first(), id);
    }
}

/// The identifiers of nodes are those of the first node followed by those of
/// the others.
proof fn lemma_ids_split(view: MemoryView<'_>, nodes: Seq<u64>)
    requires
        nodes.len() > 0,
    ensures
        ids_of(view, nodes) == ids_of(view, nodes.take(1)) + ids_of(view, nodes.drop_first()),
    decreases nodes.len(),
{
    assert(nodes.take(1).drop_last() =~= Seq::<u64>::empty());
    if nodes.len() == 1 {
        assert(nodes.take(1) =~= nodes);
        assert(nodes.drop_first() =~= Seq::<u64>::empty());
        assert(ids_of(view, nodes) + Seq::<u32>::empty() =~= ids_of(view, nodes));
    } else {
        let before = nodes.drop_last();
        lemma_ids_split(view, before);
        assert(before.take(1) =~= nodes.take(1));
        assert(nodes.drop_first().drop_last() =~= before.drop_first());
        assert(nodes.drop_first().last() == nodes.last());
        let head = ids_of(view, nodes.take(1));
        let middle = ids_of(view, before.drop_first());
        match node_at(view, nodes.last()) {
            Some(node) => {
                assert((head + middle).push(node.id) =~= head + middle.push(node.id));
            },
            None => {},
        }
    }
}

} // verus!
