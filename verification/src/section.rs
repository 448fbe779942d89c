//! Sections: named regions of a module's address space.

use vstd::prelude::*;
use crate::addr::Addr;
use crate::attrs::SectionFlag;
use crate::byte_interval::ByteInterval;
use crate::byte_interval::ByteIntervalData;
use crate::code_block::CodeBlock;
use crate::context::Context;
use crate::data_block::DataBlock;
use crate::error::GraphError;
use crate::graph::lemma_list_live;
use crate::ident::Uuid;
use crate::ident::random_uuid;
use crate::kind::NodeKind;
use crate::kind::NodeRef;
use crate::module::Module;
use crate::node::Node;
use crate::node::NodeData;
use crate::record::Record;
use crate::seqs::lemma_push_to_set;
use crate::store::Key;
use crate::view::Attrs;
use crate::view::SectionAttrs;

verus! {

/// The record of a section.
#[derive(Debug, PartialEq)]
pub struct SectionData {
    pub uuid: Uuid,
    pub name: String,
    pub flags: Vec<SectionFlag>,
}

impl SectionData {
    /// The attributes that the record holds.
    pub open spec fn attrs(&self) -> Attrs {
        Attrs::Section(SectionAttrs { name: self.name@, flags: self.flags@.to_set() })
    }

    /// The attributes of a new section: the name as given and no flag.
    pub open spec fn initial(name: Seq<char>) -> Attrs {
        Attrs::Section(SectionAttrs { name, flags: Set::empty() })
    }

    /// A section with the given identifier and name.
    pub fn with_uuid(uuid: Uuid, name: &str) -> (section: SectionData)
        ensures
            section.uuid == uuid,
            section.attrs() == SectionData::initial(name@),
    {
        let section = SectionData { uuid, name: name.to_owned(), flags: Vec::new() };
        assert(section.flags@.to_set() =~= Set::<SectionFlag>::empty());
        section
    }

    /// A section with a fresh random identifier.
    pub fn new(name: &str) -> (section: SectionData)
        ensures
            section.attrs() == SectionData::initial(name@),
    {
        SectionData::with_uuid(random_uuid(), name)
    }
}

/// A handle on a section: the key of its slot and the context that the key
/// belongs to. A handle is valid in that context while the slot is occupied
/// in the key's generation.
#[derive(Clone, Copy, Debug, PartialEq, Eq, Structural)]
pub struct Section {
    pub index: Key,
    pub context: Uuid,
}

impl Section {
    /// The node that the handle names.
    pub open spec fn node_ref(&self) -> NodeRef {
        NodeRef { kind: NodeKind::Section, key: self.index }
    }

    /// Whether the handle names a live section of the given context.
    pub open spec fn valid(&self, ctx: &Context) -> bool {
        self.context == ctx@.id && ctx@.live(self.node_ref())
    }

    /// A handle from its parts.
    pub fn new(index: Key, context: Uuid) -> (node: Section)
        ensures
            node == (Section { index, context }),
    {
        Section { index, context }
    }

    /// The key of the slot that the handle names.
    pub fn index(&self) -> (index: Key)
        ensures
            index == self.index,
    {
        self.index
    }

    /// Computes [`Section::valid`].
    pub fn is_valid(&self, ctx: &Context) -> (valid: bool)
        ensures
            valid == self.valid(ctx),
    {
        self.context == ctx.id() && ctx.contains(NodeRef { kind: NodeKind::Section, key: self.index })
    }

    /// The section's identifier.
    pub fn uuid(&self, ctx: &Context) -> (uuid: Result<Uuid, GraphError>)
        ensures
            match uuid {
                Ok(uuid) => self.valid(ctx) && uuid == ctx@.nodes[self.node_ref()].uuid,
                Err(error) => error == GraphError::StaleHandle && !self.valid(ctx),
            },
    {
        if self.context != ctx.id() {
            return Err(GraphError::StaleHandle);
        }
        match ctx.uuid_of(NodeRef { kind: NodeKind::Section, key: self.index }) {
            Some(uuid) => Ok(uuid),
            None => Err(GraphError::StaleHandle),
        }
    }

    /// Gives the section another identifier; the index follows. An identifier
    /// that another live node has is refused.
    pub fn set_uuid(&self, ctx: &mut Context, uuid: Uuid) -> (set: Result<(), GraphError>)
        requires
            old(ctx).wf(),
        ensures
            final(ctx).wf(),
            match set {
                Ok(_) => {
                    &&& self.valid(old(ctx))
                    &&& (old(ctx)@.index.dom().contains(uuid) ==> old(ctx)@.index[uuid]
                        == self.node_ref())
                    &&& final(ctx)@ == old(ctx)@.renamed(self.node_ref(), uuid)
                },
                Err(error) => {
                    &&& final(ctx)@ == old(ctx)@
                    &&& error == if !self.valid(old(ctx)) {
                        GraphError::StaleHandle
                    } else {
                        GraphError::DuplicateUuid
                    }
                    &&& (!self.valid(old(ctx)) || (old(ctx)@.index.dom().contains(uuid) && old(
                        ctx,
                    )@.index[uuid] != self.node_ref()))
                },
            },
    {
        if self.context != ctx.id() {
            return Err(GraphError::StaleHandle);
        }
        ctx.set_uuid(NodeRef { kind: NodeKind::Section, key: self.index }, uuid)
    }

    /// The attributes of the section that the handle names.
    pub open spec fn attrs(&self, ctx: &Context) -> SectionAttrs {
        ctx@.attrs(self.node_ref())->Section_0
    }

    /// The record behind the handle.
    fn data<'a>(&self, ctx: &'a Context) -> (data: Result<&'a SectionData, GraphError>)
        requires
            ctx.wf(),
        ensures
            match data {
                Ok(data) => self.valid(ctx) && data.attrs() == ctx@.attrs(self.node_ref())
                    && ctx@.attrs(self.node_ref()) is Section,
                Err(error) => error == GraphError::StaleHandle && !self.valid(ctx),
            },
    {
        if self.context != ctx.id() {
            return Err(GraphError::StaleHandle);
        }
        proof {
            if ctx@.live(self.node_ref()) {
                assert(ctx@.nodes.dom().contains(self.node_ref()));
            }
        }
        match ctx.record(NodeRef { kind: NodeKind::Section, key: self.index }) {
            Some(Record::Section(data)) => Ok(data),
            _ => Err(GraphError::StaleHandle),
        }
    }

    /// The section's name.
    pub fn name(&self, ctx: &Context) -> (value: Result<String, GraphError>)
        requires
            ctx.wf(),
        ensures
            match value {
                Ok(value) => self.valid(ctx) && value@ == self.attrs(ctx).name,
                Err(error) => error == GraphError::StaleHandle && !self.valid(ctx),
            },
    {
        match self.data(ctx) {
            Ok(data) => Ok(data.name.clone()),
            Err(error) => Err(error),
        }
    }

    /// Sets the section's name.
    pub fn set_name(&self, ctx: &mut Context, name: &str) -> (set: Result<(), GraphError>)
        requires
            old(ctx).wf(),
        ensures
            final(ctx).wf(),
            match set {
                Ok(_) => self.valid(old(ctx)) && final(ctx)@ == old(ctx)@.with_attrs(
                    self.node_ref(),
                    Attrs::Section(SectionAttrs { name: name@, ..self.attrs(old(ctx)) }),
                ),
                Err(error) => error == GraphError::StaleHandle && !self.valid(old(ctx))
                    && final(ctx)@ == old(ctx)@,
            },
    {
        if !self.is_valid(ctx) {
            return Err(GraphError::StaleHandle);
        }
        proof {
            assert(ctx@.nodes.dom().contains(self.node_ref()));
        }
        let record = ctx.record_mut(NodeRef { kind: NodeKind::Section, key: self.index });
        match record {
            Record::Section(data) => {
                data.name = name.to_owned();
            },
            _ => {},
        }
        Ok(())
    }
}

impl Section {
    /// The handles on the sections with the given keys, in the same order.
    pub open spec fn handles(keys: Seq<Key>, context: Uuid) -> Seq<Section> {
        Seq::new(keys.len(), |i: int| Section { index: keys[i], context })
    }

    /// Computes [`Section::handles`].
    pub fn from_keys(keys: &Vec<Key>, context: Uuid) -> (handles: Vec<Section>)
        ensures
            handles@ == Section::handles(keys@, context),
    {
        let mut handles: Vec<Section> = Vec::new();
        let mut done: usize = 0;
        while done < keys.len()
            invariant
                done <= keys.len(),
                handles@ == Section::handles(keys@.take(done as int), context),
            decreases keys.len() - done,
        {
            handles.push(Section { index: keys[done], context });
            done = done + 1;
            assert(handles@ =~= Section::handles(keys@.take(done as int), context));
        }
        assert(keys@.take(done as int) =~= keys@);
        handles
    }

    /// The module that contains the section.
    pub fn parent(&self, ctx: &Context) -> (parent: Result<Module, GraphError>)
        requires
            ctx.wf(),
        ensures
            match parent {
                Ok(parent) => {
                    &&& self.valid(ctx)
                    &&& parent.valid(ctx)
                    &&& ctx@.parent_of(self.node_ref()) == Some(parent.node_ref())
                },
                Err(error) => error == GraphError::StaleHandle && !self.valid(ctx),
            },
    {
        if self.context != ctx.id() {
            return Err(GraphError::StaleHandle);
        }
        proof {
            if ctx@.live(self.node_ref()) {
                assert(ctx@.nodes.dom().contains(self.node_ref()));
            }
        }
        match ctx.parent_key(NodeRef { kind: NodeKind::Section, key: self.index }) {
            Some(key) => Ok(Module { index: key, context: self.context }),
            None => Err(GraphError::StaleHandle),
        }
    }
}

impl Section {
    /// The section's byte intervals, in the order in which they were added, as they
    /// stand now: what is added or removed later does not reach the result.
    pub fn byte_intervals(&self, ctx: &Context) -> (children: Result<Vec<ByteInterval>, GraphError>)
        ensures
            match children {
                Ok(children) => self.valid(ctx) && children@ == ByteInterval::handles(
                    ctx@.nodes[self.node_ref()].list(NodeKind::ByteInterval),
                    self.context,
                ),
                Err(error) => error == GraphError::StaleHandle && !self.valid(ctx),
            },
    {
        if self.context != ctx.id() {
            return Err(GraphError::StaleHandle);
        }
        match ctx.node_iter(NodeRef { kind: NodeKind::Section, key: self.index }, NodeKind::ByteInterval) {
            Some(keys) => Ok(ByteInterval::from_keys(&keys, self.context)),
            None => Err(GraphError::StaleHandle),
        }
    }

    /// Adds a byte interval as the section's last: the record goes into its arena,
    /// its identifier into the index, and its key onto the section's list. A
    /// record whose identifier a live node already has is refused.
    pub fn add_byte_interval(&self, ctx: &mut Context, byte_interval: ByteIntervalData) -> (added: Result<ByteInterval, GraphError>)
        requires
            old(ctx).wf(),
        ensures
            final(ctx).wf(),
            match added {
                Ok(child) => {
                    &&& self.valid(old(ctx))
                    &&& !old(ctx)@.index.dom().contains(byte_interval.uuid)
                    &&& child.context == self.context
                    &&& !old(ctx)@.live(child.node_ref())
                    &&& !old(ctx)@.spent.contains(child.node_ref())
                    &&& final(ctx)@ == old(ctx)@.attach(
                        self.node_ref(),
                        child.node_ref(),
                        byte_interval.uuid,
                        byte_interval.attrs(),
                    )
                },
                Err(error) => {
                    &&& final(ctx)@ == old(ctx)@
                    &&& error == if !self.valid(old(ctx)) {
                        GraphError::StaleHandle
                    } else {
                        GraphError::DuplicateUuid
                    }
                    &&& (!self.valid(old(ctx)) || old(ctx)@.index.dom().contains(byte_interval.uuid))
                },
            },
    {
        if self.context != ctx.id() {
            return Err(GraphError::StaleHandle);
        }
        let parent = NodeRef { kind: NodeKind::Section, key: self.index };
        match ctx.add_node(parent, Record::ByteInterval(byte_interval)) {
            Ok(child) => Ok(ByteInterval { index: child.key, context: self.context }),
            Err(error) => Err(error),
        }
    }

    /// Removes one of the section's byte intervals together with everything below
    /// it. The nodes leave their arenas, their identifiers leave the index,
    /// and the key leaves the section's list; handles on them are stale from
    /// then on.
    pub fn remove_byte_interval(&self, ctx: &mut Context, node: ByteInterval) -> (removed: Result<(), GraphError>)
        requires
            old(ctx).wf(),
        ensures
            final(ctx).wf(),
            match removed {
                Ok(_) => {
                    &&& self.valid(old(ctx))
                    &&& node.valid(old(ctx))
                    &&& old(ctx)@.parent_of(node.node_ref()) == Some(self.node_ref())
                    &&& final(ctx)@ == old(ctx)@.pruned(node.node_ref())
                },
                Err(error) => {
                    &&& final(ctx)@ == old(ctx)@
                    &&& error == if !self.valid(old(ctx)) || !node.valid(old(ctx)) {
                        GraphError::StaleHandle
                    } else {
                        GraphError::WrongParent
                    }
                    &&& (!self.valid(old(ctx)) || !node.valid(old(ctx)) || old(ctx)@.parent_of(
                        node.node_ref(),
                    ) != Some(self.node_ref()))
                },
            },
    {
        if self.context != ctx.id() || node.context != ctx.id() {
            return Err(GraphError::StaleHandle);
        }
        ctx.remove_node(
            NodeRef { kind: NodeKind::Section, key: self.index },
            NodeRef { kind: NodeKind::ByteInterval, key: node.index },
        )
    }
}

impl Section {
    /// The section's flags, each once.
    pub fn flags(&self, ctx: &Context) -> (flags: Result<Vec<SectionFlag>, GraphError>)
        requires
            ctx.wf(),
        ensures
            match flags {
                Ok(flags) => self.valid(ctx) && flags@.to_set() == self.attrs(ctx).flags
                    && flags@.no_duplicates(),
                Err(error) => error == GraphError::StaleHandle && !self.valid(ctx),
            },
    {
        match self.data(ctx) {
            Ok(data) => Ok(distinct_flags(&data.flags)),
            Err(error) => Err(error),
        }
    }

    /// Whether the section has the flag.
    pub fn is_flag_set(&self, ctx: &Context, flag: SectionFlag) -> (set: Result<bool, GraphError>)
        requires
            ctx.wf(),
        ensures
            match set {
                Ok(set) => self.valid(ctx) && set == self.attrs(ctx).flags.contains(flag),
                Err(error) => error == GraphError::StaleHandle && !self.valid(ctx),
            },
    {
        match self.data(ctx) {
            Ok(data) => Ok(has_flag(&data.flags, flag)),
            Err(error) => Err(error),
        }
    }

    /// Gives the section a flag; nothing changes where it has the flag.
    pub fn add_flag(&self, ctx: &mut Context, flag: SectionFlag) -> (set: Result<(), GraphError>)
        requires
            old(ctx).wf(),
        ensures
            final(ctx).wf(),
            match set {
                Ok(_) => self.valid(old(ctx)) && final(ctx)@ == old(ctx)@.with_attrs(
                    self.node_ref(),
                    Attrs::Section(
                        SectionAttrs {
                            flags: self.attrs(old(ctx)).flags.insert(flag),
                            ..self.attrs(old(ctx))
                        },
                    ),
                ),
                Err(error) => error == GraphError::StaleHandle && !self.valid(old(ctx))
                    && final(ctx)@ == old(ctx)@,
            },
    {
        if !self.is_valid(ctx) {
            return Err(GraphError::StaleHandle);
        }
        proof {
            assert(ctx@.nodes.dom().contains(self.node_ref()));
        }
        let record = ctx.record_mut(NodeRef { kind: NodeKind::Section, key: self.index });
        match record {
            Record::Section(data) => {
                let ghost before = data.flags@;
                if !has_flag(&data.flags, flag) {
                    data.flags.push(flag);
                    proof {
                        lemma_push_to_set(before, flag);
                    }
                } else {
                    assert(before.to_set().insert(flag) =~= before.to_set());
                }
            },
            _ => {},
        }
        Ok(())
    }

    /// Takes a flag from the section; nothing changes where it has not got
    /// the flag.
    pub fn remove_flag(&self, ctx: &mut Context, flag: SectionFlag) -> (set: Result<
        (),
        GraphError,
    >)
        requires
            old(ctx).wf(),
        ensures
            final(ctx).wf(),
            match set {
                Ok(_) => self.valid(old(ctx)) && final(ctx)@ == old(ctx)@.with_attrs(
                    self.node_ref(),
                    Attrs::Section(
                        SectionAttrs {
                            flags: self.attrs(old(ctx)).flags.remove(flag),
                            ..self.attrs(old(ctx))
                        },
                    ),
                ),
                Err(error) => error == GraphError::StaleHandle && !self.valid(old(ctx))
                    && final(ctx)@ == old(ctx)@,
            },
    {
        if !self.is_valid(ctx) {
            return Err(GraphError::StaleHandle);
        }
        proof {
            assert(ctx@.nodes.dom().contains(self.node_ref()));
        }
        let record = ctx.record_mut(NodeRef { kind: NodeKind::Section, key: self.index });
        match record {
            Record::Section(data) => {
                let kept = without_flag(&data.flags, flag);
                data.flags = kept;
            },
            _ => {},
        }
        Ok(())
    }
}

/// Whether a list of flags holds the given one.
pub fn has_flag(flags: &Vec<SectionFlag>, flag: SectionFlag) -> (found: bool)
    ensures
        found == flags@.to_set().contains(flag),
{
    let mut at: usize = 0;
    while at < flags.len()
        invariant
            at <= flags.len(),
            forall|i: int| 0 <= i < at ==> flags@[i] != flag,
        decreases flags.len() - at,
    {
        if flags[at] == flag {
            assert(flags@.contains(flag));
            return true;
        }
        at = at + 1;
    }
    assert(!flags@.contains(flag));
    false
}

/// The flags of a list other than the given one.
pub(crate) fn without_flag(flags: &Vec<SectionFlag>, flag: SectionFlag) -> (kept: Vec<SectionFlag>)
    ensures
        kept@.to_set() == flags@.to_set().remove(flag),
{
    let mut kept: Vec<SectionFlag> = Vec::new();
    let mut at: usize = 0;
    while at < flags.len()
        invariant
            at <= flags.len(),
            kept@.to_set() == flags@.take(at as int).to_set().remove(flag),
        decreases flags.len() - at,
    {
        let ghost before = kept@;
        if flags[at] != flag {
            kept.push(flags[at]);
            proof {
                lemma_push_to_set(before, flags@[at as int]);
            }
        }
        proof {
            assert(flags@.take(at + 1) == flags@.take(at as int).push(flags@[at as int]));
            lemma_push_to_set(flags@.take(at as int), flags@[at as int]);
            assert(kept@.to_set() =~= flags@.take(at + 1).to_set().remove(flag));
        }
        at = at + 1;
    }
    assert(flags@.take(at as int) == flags@);
    kept
}

/// The flags of a list, each once, in the order of their first places.
pub(crate) fn distinct_flags(flags: &Vec<SectionFlag>) -> (kept: Vec<SectionFlag>)
    ensures
        kept@.to_set() == flags@.to_set(),
        kept@.no_duplicates(),
{
    let mut kept: Vec<SectionFlag> = Vec::new();
    let mut at: usize = 0;
    while at < flags.len()
        invariant
            at <= flags.len(),
            kept@.to_set() == flags@.take(at as int).to_set(),
            kept@.no_duplicates(),
        decreases flags.len() - at,
    {
        let ghost before = kept@;
        proof {
            assert(flags@.take(at + 1) == flags@.take(at as int).push(flags@[at as int]));
            lemma_push_to_set(flags@.take(at as int), flags@[at as int]);
        }
        if !has_flag(&kept, flags[at]) {
            kept.push(flags[at]);
            proof {
                lemma_push_to_set(before, flags@[at as int]);
                assert(!before.contains(flags@[at as int]));
            }
        } else {
            assert(kept@.to_set() =~= flags@.take(at + 1).to_set());
        }
        at = at + 1;
    }
    assert(flags@.take(at as int) == flags@);
    kept
}

impl Section {
    /// The keys of the section's byte intervals.
    fn interval_keys(&self, ctx: &Context) -> (keys: Result<Vec<Key>, GraphError>)
        requires
            ctx.wf(),
        ensures
            match keys {
                Ok(keys) => self.valid(ctx) && keys@ == ctx@.section_intervals(self.index)
                    && ctx@.all_live(NodeKind::ByteInterval, keys@),
                Err(error) => error == GraphError::StaleHandle && !self.valid(ctx),
            },
    {
        if self.context != ctx.id() {
            return Err(GraphError::StaleHandle);
        }
        let node = NodeRef { kind: NodeKind::Section, key: self.index };
        match ctx.node_iter(node, NodeKind::ByteInterval) {
            Some(keys) => {
                proof {
                    lemma_list_live(ctx@, node, NodeKind::ByteInterval);
                }
                Ok(keys)
            },
            None => Err(GraphError::StaleHandle),
        }
    }

    /// The section's code blocks: those of its first byte interval, of its second
    /// and so on, as they stand now.
    pub fn code_blocks(&self, ctx: &Context) -> (blocks: Result<Vec<CodeBlock>, GraphError>)
        requires
            ctx.wf(),
        ensures
            match blocks {
                Ok(blocks) => self.valid(ctx) && blocks@ == CodeBlock::handles(
                    ctx@.flat(
                        NodeKind::ByteInterval,
                        ctx@.section_intervals(self.index),
                        NodeKind::CodeBlock,
                    ),
                    self.context,
                ),
                Err(error) => error == GraphError::StaleHandle && !self.valid(ctx),
            },
    {
        match self.interval_keys(ctx) {
            Ok(intervals) => {
                let keys = ctx.descend(NodeKind::ByteInterval, &intervals, NodeKind::CodeBlock);
                Ok(CodeBlock::from_keys(&keys, self.context))
            },
            Err(error) => Err(error),
        }
    }

    /// The section's data blocks: those of its first byte interval, of its second
    /// and so on, as they stand now.
    pub fn data_blocks(&self, ctx: &Context) -> (blocks: Result<Vec<DataBlock>, GraphError>)
        requires
            ctx.wf(),
        ensures
            match blocks {
                Ok(blocks) => self.valid(ctx) && blocks@ == DataBlock::handles(
                    ctx@.flat(
                        NodeKind::ByteInterval,
                        ctx@.section_intervals(self.index),
                        NodeKind::DataBlock,
                    ),
                    self.context,
                ),
                Err(error) => error == GraphError::StaleHandle && !self.valid(ctx),
            },
    {
        match self.interval_keys(ctx) {
            Ok(intervals) => {
                let keys = ctx.descend(NodeKind::ByteInterval, &intervals, NodeKind::DataBlock);
                Ok(DataBlock::from_keys(&keys, self.context))
            },
            Err(error) => Err(error),
        }
    }

    /// The section's address: the lowest address among its byte intervals.
    /// There is none where the section has no byte interval or one of them
    /// has no address.
    pub fn address(&self, ctx: &Context) -> (address: Result<Option<Addr>, GraphError>)
        requires
            ctx.wf(),
        ensures
            match address {
                Ok(address) => self.valid(ctx) && address == ctx@.address(
                    ctx@.section_intervals(self.index),
                ),
                Err(error) => error == GraphError::StaleHandle && !self.valid(ctx),
            },
    {
        match self.interval_keys(ctx) {
            Ok(intervals) => match ctx.extent(&intervals) {
                Some((lowest, _)) => Ok(Some(lowest)),
                None => Ok(None),
            },
            Err(error) => Err(error),
        }
    }

    /// The section's size: from the lowest address among its byte intervals
    /// to the highest of their ends. There is none where the section has no
    /// byte interval or one of them has no address.
    pub fn size(&self, ctx: &Context) -> (size: Result<Option<u64>, GraphError>)
        requires
            ctx.wf(),
        ensures
            match size {
                Ok(size) => self.valid(ctx) && size == ctx@.size(ctx@.section_intervals(self.index)),
                Err(error) => error == GraphError::StaleHandle && !self.valid(ctx),
            },
    {
        match self.interval_keys(ctx) {
            Ok(intervals) => match ctx.extent(&intervals) {
                Some((lowest, highest)) => Ok(Some((highest - lowest).0)),
                None => Ok(None),
            },
            Err(error) => Err(error),
        }
    }
}

impl Node for Section {
    open spec fn kind() -> NodeKind {
        NodeKind::Section
    }

    open spec fn make(index: Key, context: Uuid) -> Section {
        Section { index, context }
    }

    fn node_kind() -> (kind: NodeKind) {
        NodeKind::Section
    }

    fn from_parts(index: Key, context: Uuid) -> (node: Section) {
        Section { index, context }
    }
}

impl NodeData for SectionData {
    open spec fn data_kind(&self) -> NodeKind {
        NodeKind::Section
    }

    open spec fn data_uuid(&self) -> Uuid {
        self.uuid
    }

    open spec fn data_attrs(&self) -> Attrs {
        self.attrs()
    }

    fn uuid(&self) -> (uuid: Uuid) {
        self.uuid
    }

    fn into_record(self) -> (record: Record) {
        Record::Section(self)
    }
}

} // verus!
