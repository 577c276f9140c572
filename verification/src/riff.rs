//! The tree of lists and chunks that a RIFF container is made of.

use vstd::prelude::*;
use crate::error::{Failure, VideoError, VideoErrorKind};
use crate::fourcc::{same_fourcc, FourCC, FOURCC_LIST, FOURCC_RIFF};
use crate::le::{le_u32, read_le_u32, read_tag, tag_at};

verus! {

/// The bytes before the first entry of a container: `RIFF`, the length of
/// what follows it, and the kind of file.
pub const FILE_HEADER_SIZE: usize = 12;

/// The bytes before the payload of an entry: its tag and its size.
pub const ENTRY_HEADER_SIZE: usize = 8;

/// Meta-data for a chunk of data
#[derive(Debug, Clone, Copy)]
pub struct ChunkMeta {
    /// four-character code chunk id
    pub chunk_id: FourCC,
    /// offset of data
    pub data_offset: usize,
    /// length of data, in bytes
    pub chunk_size: usize,
    /// Number of data bytes, which can be greater than chunk_size due to padding
    pub data_size: usize,
}

/// Meta-data for a list
#[derive(Debug)]
pub struct ListMeta {
    /// four-character code list type
    pub list_type: FourCC,
    /// offset of data, in bytes
    pub data_offset: usize,
    /// length of data, in bytes
    pub data_size: usize,
    /// child entries, which can be a mix of lists and chunks
    pub children: Vec<Entry>,
}

/// Entry in a RIFF file, which can be a list or a chunk of data. Lists can be nested
#[derive(Debug)]
pub enum Entry {
    /// List can contain lists and chunks
    List(ListMeta),
    /// Chunks are leaf nodes
    Chunk(ChunkMeta),
}

/// An entry as the contracts see it.
pub enum Node {
    List { list_type: Seq<u8>, data_offset: int, data_size: int, children: Seq<Node> },
    Chunk { chunk_id: Seq<u8>, data_offset: int, chunk_size: int, data_size: int },
}

impl ChunkMeta {
    /// The chunk as the contracts see it.
    pub open spec fn node(&self) -> Node {
        Node::Chunk {
            chunk_id: self.chunk_id@,
            data_offset: self.data_offset as int,
            chunk_size: self.chunk_size as int,
            data_size: self.data_size as int,
        }
    }
}

impl ListMeta {
    /// The list as the contracts see it.
    pub open spec fn node(&self) -> Node {
        Node::List {
            list_type: self.list_type@,
            data_offset: self.data_offset as int,
            data_size: self.data_size as int,
            children: nodes_of(self.children@),
        }
    }
}

impl Entry {
    /// The entry as the contracts see it.
    pub open spec fn node(&self) -> Node
        decreases self,
    {
        match self {
            Entry::List(meta) => Node::List {
                list_type: meta.list_type@,
                data_offset: meta.data_offset as int,
                data_size: meta.data_size as int,
                children: Seq::new(
                    meta.children.len() as nat,
                    |i: int|
                        if 0 <= i < meta.children.len() {
                            meta.children[i].node()
                        } else {
                            arbitrary()
                        },
                ),
            },
            Entry::Chunk(meta) => meta.node(),
        }
    }
}

/// The entries as the contracts see them.
pub open spec fn nodes_of(entries: Seq<Entry>) -> Seq<Node> {
    Seq::new(entries.len(), |i: int| entries[i].node())
}

/// A list entry is seen as its list is.
pub proof fn lemma_list_entry_node(meta: ListMeta)
    ensures
        Entry::List(meta).node() == meta.node(),
{
    assert(Entry::List(meta).node()->children =~= nodes_of(meta.children@));
}

/// The bytes that the data of a chunk of `size` bytes take with their
/// padding: one byte follows data of odd size.
pub open spec fn padded(size: int) -> int {
    size + size % 2
}

/// Whether the entry at `at` is a list.
pub open spec fn list_at(bytes: Seq<u8>, at: int) -> bool {
    tag_at(bytes, at) == FOURCC_LIST@
}

/// The bytes from the start of the entry at `at` to the start of the next.
pub open spec fn entry_span(bytes: Seq<u8>, at: int) -> int {
    if list_at(bytes, at) {
        ENTRY_HEADER_SIZE + le_u32(bytes, at + 4)
    } else {
        ENTRY_HEADER_SIZE + padded(le_u32(bytes, at + 4) as int)
    }
}

/// The entry that starts at `at` and lies before `to`, if there is a
/// well-formed one.
pub open spec fn parse_entry(bytes: Seq<u8>, at: int, to: int) -> Option<Node>
    decreases to - at, 0int,
{
    let size = le_u32(bytes, at + 4) as int;
    let body = at + ENTRY_HEADER_SIZE;
    if to - at < ENTRY_HEADER_SIZE || at + entry_span(bytes, at) > to {
        None
    } else if list_at(bytes, at) {
        if size < 4 {
            None
        } else {
            match parse_entries(bytes, body + 4, body + size) {
                Some(children) => Some(
                    Node::List {
                        list_type: tag_at(bytes, body),
                        data_offset: body + 4,
                        data_size: size - 4,
                        children,
                    },
                ),
                None => None,
            }
        }
    } else {
        Some(
            Node::Chunk {
                chunk_id: tag_at(bytes, at),
                data_offset: body,
                chunk_size: size,
                data_size: padded(size),
            },
        )
    }
}

/// The entries that fill the bytes from `from` up to `to` exactly, if
/// well-formed entries do.
pub open spec fn parse_entries(bytes: Seq<u8>, from: int, to: int) -> Option<Seq<Node>>
    decreases to - from, 1int,
{
    if from >= to {
        if from == to {
            Some(Seq::empty())
        } else {
            None
        }
    } else if to - from < ENTRY_HEADER_SIZE || from + entry_span(bytes, from) > to {
        None
    } else {
        match parse_entry(bytes, from, to) {
            Some(node) => match parse_entries(bytes, from + entry_span(bytes, from), to) {
                Some(rest) => Some(seq![node] + rest),
                None => None,
            },
            None => None,
        }
    }
}

/// The entries of a whole container, if it is well-formed: it opens with
/// `RIFF` and the length of what follows, and entries fill the rest.
pub open spec fn parse_file(bytes: Seq<u8>) -> Option<Seq<Node>> {
    if bytes.len() < FILE_HEADER_SIZE || tag_at(bytes, 0) != FOURCC_RIFF@ || le_u32(bytes, 4) + 8
        != bytes.len() {
        None
    } else {
        parse_entries(bytes, FILE_HEADER_SIZE as int, bytes.len() as int)
    }
}

/// The failure of reading a container whose layout is broken.
pub open spec fn malformed_failure() -> Failure {
    Failure { kind: VideoErrorKind::MalformedContainer, message: "RIFF container is malformed"@ }
}

/// What reading a whole container comes to.
pub open spec fn read_outcome(bytes: Seq<u8>) -> Result<Seq<Node>, Failure> {
    match parse_file(bytes) {
        Some(nodes) => Ok(nodes),
        None => Err(malformed_failure()),
    }
}

/// The entries that were read, as the contracts see them.
pub open spec fn entries_read(result: Result<Vec<Entry>, VideoError>) -> Result<
    Seq<Node>,
    Failure,
> {
    match result {
        Ok(entries) => Ok(nodes_of(entries@)),
        Err(e) => Err(e@),
    }
}

/// What was read so far, followed by what is still to be read.
pub open spec fn followed_by(read: Seq<Node>, rest: Option<Seq<Node>>) -> Option<Seq<Node>> {
    match rest {
        Some(rest) => Some(read + rest),
        None => None,
    }
}

/// Reads the entries that fill the bytes from `from` up to `to`, and
/// within each list its children; `None` where well-formed entries do not
/// fill them exactly.
fn read_region(bytes: &[u8], from: usize, to: usize) -> (r: Option<Vec<Entry>>)
    requires
        from <= to <= bytes@.len(),
    ensures
        match r {
            Some(entries) => parse_entries(bytes@, from as int, to as int) == Some(
                nodes_of(entries@),
            ),
            None => parse_entries(bytes@, from as int, to as int) is None,
        },
    decreases to - from,
{
    let mut entries: Vec<Entry> = Vec::new();
    let mut pos = from;
    proof {
        let all = parse_entries(bytes@, from as int, to as int);
        if all is Some {
            assert(nodes_of(entries@) + all.unwrap() =~= all.unwrap());
        }
    }
    while pos < to
        invariant
            from <= pos <= to <= bytes@.len(),
            parse_entries(bytes@, from as int, to as int) == followed_by(
                nodes_of(entries@),
                parse_entries(bytes@, pos as int, to as int),
            ),
        decreases to - pos,
    {
        if to - pos < ENTRY_HEADER_SIZE {
            return None;
        }
        let id = read_tag(bytes, pos);
        let size = read_le_u32(bytes, pos + 4);
        let body = pos + ENTRY_HEADER_SIZE;
        let room = to - body;
        let ghost before = nodes_of(entries@);
        let next: usize;
        if same_fourcc(&id, &FOURCC_LIST) {
            if size < 4 || size as u64 > room as u64 {
                return None;
            }
            let size = size as usize;
            let list_type = read_tag(bytes, body);
            match read_region(bytes, body + 4, body + size) {
                Some(children) => {
                    let meta = ListMeta {
                        list_type,
                        data_offset: body + 4,
                        data_size: size - 4,
                        children,
                    };
                    proof {
                        lemma_list_entry_node(meta);
                    }
                    entries.push(Entry::List(meta));
                },
                None => {
                    return None;
                },
            }
            next = body + size;
        } else {
            let span: u64 = size as u64 + (size % 2) as u64;
            if span > room as u64 {
                return None;
            }
            let meta = ChunkMeta {
                chunk_id: id,
                data_offset: body,
                chunk_size: size as usize,
                data_size: span as usize,
            };
            entries.push(Entry::Chunk(meta));
            next = body + span as usize;
        }
        proof {
            let node = parse_entry(bytes@, pos as int, to as int).unwrap();
            assert(nodes_of(entries@) =~= before.push(node));
            let rest = parse_entries(bytes@, next as int, to as int);
            if rest is Some {
                assert(before + (seq![node] + rest.unwrap()) =~= before.push(node) + rest.unwrap());
            }
        }
        pos = next;
    }
    assert(nodes_of(entries@) + Seq::<Node>::empty() =~= nodes_of(entries@));
    Some(entries)
}

/// Reads the entries of a container: the tree of its lists and chunks, in
/// file order.
pub fn read_entries(bytes: &[u8]) -> (r: Result<Vec<Entry>, VideoError>)
    ensures
        entries_read(r) == read_outcome(bytes@),
{
    let len = bytes.len();
    if len >= FILE_HEADER_SIZE {
        let magic = read_tag(bytes, 0);
        let declared = read_le_u32(bytes, 4);
        if same_fourcc(&magic, &FOURCC_RIFF) && declared as u64 + 8 == len as u64 {
            match read_region(bytes, FILE_HEADER_SIZE, len) {
                Some(entries) => {
                    return Ok(entries);
                },
                None => {},
            }
        }
    }
    Err(VideoError::with_message(VideoErrorKind::MalformedContainer, "RIFF container is malformed"))
}

// ---------------------------------------------------------------------
// Where the entries of a well-formed container lie
// ---------------------------------------------------------------------

/// Where an entry starts: at its tag.
pub open spec fn node_start(node: Node) -> int {
    match node {
        Node::List { data_offset, .. } => data_offset - ENTRY_HEADER_SIZE - 4,
        Node::Chunk { data_offset, .. } => data_offset - ENTRY_HEADER_SIZE,
    }
}

/// Where an entry ends, its padding included: where the next one starts.
pub open spec fn node_end(node: Node) -> int {
    match node {
        Node::List { data_offset, data_size, .. } => data_offset + data_size,
        Node::Chunk { data_offset, data_size, .. } => data_offset + data_size,
    }
}

/// Whether each entry ends before the next one starts.
pub open spec fn in_file_order(nodes: Seq<Node>) -> bool {
    forall|i: int, j: int|
        0 <= i < j < nodes.len() ==> node_end(#[trigger] nodes[i]) <= node_start(
            #[trigger] nodes[j],
        )
}

/// Whether an entry, with all that it holds, lies within the bytes from
/// `from` up to `to`: a chunk with its data and padding, a list with its
/// children in file order within its own data.
pub open spec fn well_placed(node: Node, from: int, to: int) -> bool
    decreases node,
{
    &&& from <= node_start(node)
    &&& node_end(node) <= to
    &&& match node {
        Node::Chunk { data_offset, chunk_size, data_size, .. } => 0 <= chunk_size <= data_size,
        Node::List { data_offset, data_size, children, .. } => {
            &&& 0 <= data_size
            &&& in_file_order(children)
            &&& forall|i: int|
                0 <= i < children.len() ==> well_placed(
                    #[trigger] children[i],
                    data_offset,
                    data_offset + data_size,
                )
        },
    }
}

/// Whether all of `nodes` are well placed within the bytes from `from` up
/// to `to`, in file order.
pub open spec fn all_well_placed(nodes: Seq<Node>, from: int, to: int) -> bool {
    &&& in_file_order(nodes)
    &&& forall|i: int| 0 <= i < nodes.len() ==> well_placed(#[trigger] nodes[i], from, to)
}

/// The entries read from a region lie within it, one after the other, and
/// so does everything they hold.
pub proof fn lemma_parsed_entries_well_placed(bytes: Seq<u8>, from: int, to: int)
    requires
        0 <= from,
    ensures
        parse_entries(bytes, from, to) matches Some(nodes) ==> all_well_placed(nodes, from, to),
    decreases to - from,
{
    if let Some(nodes) = parse_entries(bytes, from, to) {
        if from < to {
            let node = parse_entry(bytes, from, to).unwrap();
            let next = from + entry_span(bytes, from);
            let rest = parse_entries(bytes, next, to).unwrap();
            lemma_parsed_entries_well_placed(bytes, next, to);
            assert(nodes =~= seq![node] + rest);
            assert(node_start(node) == from && node_end(node) == next);
            if list_at(bytes, from) {
                let body = from + ENTRY_HEADER_SIZE;
                let size = le_u32(bytes, from + 4) as int;
                lemma_parsed_entries_well_placed(bytes, body + 4, body + size);
            }
            assert(well_placed(node, from, to));
            assert forall|i: int| 0 <= i < nodes.len() implies well_placed(
                #[trigger] nodes[i],
                from,
                to,
            ) by {
                if i > 0 {
                    assert(nodes[i] == rest[i - 1]);
                    lemma_well_placed_widens(rest[i - 1], next, to, from, to);
                }
            }
            assert forall|i: int, j: int| 0 <= i < j < nodes.len() implies node_end(
                #[trigger] nodes[i],
            ) <= node_start(#[trigger] nodes[j]) by {
                assert(nodes[j] == rest[j - 1]);
                assert(well_placed(rest[j - 1], next, to));
                if i > 0 {
                    assert(nodes[i] == rest[i - 1]);
                }
            }
        }
    }
}

/// An entry that lies within a range lies within every wider one.
pub proof fn lemma_well_placed_widens(node: Node, from: int, to: int, wider_from: int, wider_to: int)
    requires
        well_placed(node, from, to),
        wider_from <= from,
        to <= wider_to,
    ensures
        well_placed(node, wider_from, wider_to),
{
}

/// The entries of a well-formed container lie behind its header and
/// within the file, one after the other, and so does everything they hold.
pub proof fn lemma_parsed_file_well_placed(bytes: Seq<u8>)
    ensures
        parse_file(bytes) matches Some(nodes) ==> all_well_placed(
            nodes,
            FILE_HEADER_SIZE as int,
            bytes.len() as int,
        ),
{
    lemma_parsed_entries_well_placed(bytes, FILE_HEADER_SIZE as int, bytes.len() as int);
}

} // verus!
