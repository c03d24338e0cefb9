//! The FILE_TREE block: a root path and a tree of entries. Each entry is a
//! nested field holding its name, kind, size and, nested again, its
//! children.
use vstd::prelude::*;
use vstd::string::StringSliceAdditionalSpecFns;
use vstd::utf8::encode_utf8;
use crate::enums::{
    FileEntryKind, lemma_file_entry_kind_roundtrip, spec_file_entry_kind_byte,
    spec_file_entry_kind_from_byte,
};
use crate::fields::{
    FieldModel, TypeError, all_nested, encode_bytes_field, encode_nested_field,
    encode_varint_field, lemma_all_nested_bounded, lemma_fields_bytes_push,
    lemma_nested_list_canonical, lemma_nested_tail, lemma_read_fields_roundtrip,
    lemma_read_fields_shorter, read_all_fields, req_str, req_varint, spec_all_canonical,
    spec_all_nested, spec_canonical_field, spec_fields_bytes, spec_last_bytes, spec_last_varint,
    spec_models, spec_nested_list, spec_nested_model, spec_read_fields, spec_req_str,
    spec_req_varint, spec_str_model, spec_varint_model,
};
use crate::varint::WireError;

verus! {

broadcast use vstd::utf8::encode_utf8_valid_utf8, vstd::utf8::encode_utf8_decode_utf8;

/// One entry of a file tree: a file, or a directory with children.
#[derive(Debug, PartialEq, Eq)]
pub struct FileEntry {
    pub name: String,
    pub kind: FileEntryKind,
    pub size: u64,
    pub children: Vec<FileEntry>,
}

/// The view of a [`FileEntry`].
pub struct FileEntryModel {
    pub name: Seq<char>,
    pub kind: FileEntryKind,
    pub size: u64,
    pub children: Seq<FileEntryModel>,
}

/// The view of an entry, children included.
pub open spec fn spec_entry_view(e: FileEntry) -> FileEntryModel
    decreases e, 0int,
{
    FileEntryModel {
        name: e.name@,
        kind: e.kind,
        size: e.size,
        children: spec_entries_view(e.children@),
    }
}

/// The views of a list of entries.
pub open spec fn spec_entries_view(es: Seq<FileEntry>) -> Seq<FileEntryModel>
    decreases es, 1int,
{
    if es.len() == 0 {
        Seq::empty()
    } else {
        spec_entries_view(es.drop_last()).push(spec_entry_view(es.last()))
    }
}

impl View for FileEntry {
    type V = FileEntryModel;

    open spec fn view(&self) -> FileEntryModel {
        spec_entry_view(*self)
    }
}

/// The bytes of an entry body.
pub open spec fn spec_encode_entry(m: FileEntryModel) -> Seq<u8>
    decreases m, 0int,
{
    spec_fields_bytes(
        seq![
            spec_str_model(1, m.name),
            spec_varint_model(2, spec_file_entry_kind_byte(m.kind) as u64),
            spec_varint_model(3, m.size),
        ] + spec_nested_list(4, spec_entry_bodies(m.children)),
    )
}

/// The encoded bodies of a list of entries.
pub open spec fn spec_entry_bodies(ms: Seq<FileEntryModel>) -> Seq<Seq<u8>>
    decreases ms, 1int,
{
    if ms.len() == 0 {
        Seq::empty()
    } else {
        spec_entry_bodies(ms.drop_last()).push(spec_encode_entry(ms.last()))
    }
}

/// The leading fields of an entry body, before its children.
pub open spec fn spec_entry_head(m: FileEntryModel) -> Seq<FieldModel> {
    seq![
        spec_str_model(1, m.name),
        spec_varint_model(2, spec_file_entry_kind_byte(m.kind) as u64),
        spec_varint_model(3, m.size),
    ]
}

/// Whether every string and body of an entry has a length that fits a
/// `u64`, as the wire needs.
pub open spec fn spec_entry_fits(m: FileEntryModel) -> bool
    decreases m, 0int,
{
    &&& encode_utf8(m.name).len() <= u64::MAX
    &&& spec_entries_fit(m.children)
}

/// [`spec_entry_fits`] for every entry of a list, and their bodies fit too.
pub open spec fn spec_entries_fit(ms: Seq<FileEntryModel>) -> bool
    decreases ms, 1int,
{
    if ms.len() == 0 {
        true
    } else {
        &&& spec_entries_fit(ms.drop_last())
        &&& spec_entry_fits(ms.last())
        &&& spec_encode_entry(ms.last()).len() <= u64::MAX
    }
}

/// Entry kinds travel as varints; values above 255 name no variant.
pub open spec fn spec_kind_from_u64(v: u64) -> Result<FileEntryKind, TypeError> {
    if v > 255 {
        Err(TypeError::InvalidEnumValue { enum_name: "FileEntryKind", value: v })
    } else {
        spec_file_entry_kind_from_byte(v as u8)
    }
}

fn kind_from_u64(v: u64) -> (r: Result<FileEntryKind, TypeError>)
    ensures
        r == spec_kind_from_u64(v),
{
    if v > 255 {
        Err(TypeError::InvalidEnumValue { enum_name: "FileEntryKind", value: v })
    } else {
        FileEntryKind::from_wire_byte(v as u8)
    }
}

/// Decoding an entry body.
pub open spec fn spec_decode_entry(s: Seq<u8>) -> Result<FileEntryModel, TypeError>
    decreases s.len(), 1int, 0int,
{
    match spec_read_fields(s) {
        Err(e) => Err(e),
        Ok(fs) => match spec_req_str(fs, 1, "name") {
            Err(e) => Err(e),
            Ok(name) => match spec_req_varint(fs, 2, "kind") {
                Err(e) => Err(e),
                Ok(vk) => match spec_kind_from_u64(vk) {
                    Err(e) => Err(e),
                    Ok(kind) => match spec_req_varint(fs, 3, "size") {
                        Err(e) => Err(e),
                        Ok(size) => match spec_decode_entries(spec_all_nested(fs, 4), s.len()) {
                            Err(e) => Err(e),
                            Ok(children) => Ok(FileEntryModel { name, kind, size, children }),
                        },
                    },
                },
            },
        },
    }
}

/// Decoding a list of entry bodies, each shorter than `bound`; the first
/// error wins.
pub open spec fn spec_decode_entries(ds: Seq<Seq<u8>>, bound: nat) -> Result<
    Seq<FileEntryModel>,
    TypeError,
>
    decreases bound, 0int, ds.len(),
{
    if ds.len() == 0 {
        Ok(Seq::empty())
    } else {
        match spec_decode_entries(ds.drop_last(), bound) {
            Err(e) => Err(e),
            Ok(cs) => if ds.last().len() < bound {
                match spec_decode_entry(ds.last()) {
                    Err(e) => Err(e),
                    Ok(c) => Ok(cs.push(c)),
                }
            } else {
                Err(TypeError::Wire(WireError::UnexpectedEof { offset: 0 }))
            },
        }
    }
}

/// The views of a list of entries, one per entry.
pub proof fn lemma_views_len(es: Seq<FileEntry>)
    ensures
        spec_entries_view(es).len() == es.len(),
        forall|i: int| 0 <= i < es.len() ==> #[trigger] spec_entries_view(es)[i] == es[i]@,
    decreases es.len(),
{
    if es.len() > 0 {
        lemma_views_len(es.drop_last());
        assert forall|i: int| 0 <= i < es.len() implies #[trigger] spec_entries_view(es)[i]
            == es[i]@ by {
            if i < es.len() - 1 {
                assert(es.drop_last()[i] == es[i]);
            }
        }
    }
}

proof fn lemma_bodies_len(ms: Seq<FileEntryModel>)
    ensures
        spec_entry_bodies(ms).len() == ms.len(),
        forall|i: int| 0 <= i < ms.len() ==> #[trigger] spec_entry_bodies(ms)[i] == spec_encode_entry(ms[i]),
    decreases ms.len(),
{
    if ms.len() > 0 {
        lemma_bodies_len(ms.drop_last());
        assert forall|i: int| 0 <= i < ms.len() implies #[trigger] spec_entry_bodies(ms)[i]
            == spec_encode_entry(ms[i]) by {
            if i < ms.len() - 1 {
                assert(ms.drop_last()[i] == ms[i]);
            }
        }
    }
}

impl FileEntry {
    /// Serialize this entry as a nested body.
    pub fn encode_body(&self) -> (r: Vec<u8>)
        ensures
            r@ == spec_encode_entry(self@),
        decreases self,
    {
        let mut buf: Vec<u8> = Vec::new();
        let ghost m = self@;
        encode_bytes_field(&mut buf, 1, self.name.as_str().as_bytes());
        encode_varint_field(&mut buf, 2, self.kind.to_wire_byte() as u64);
        encode_varint_field(&mut buf, 3, self.size);
        let ghost head = spec_entry_head(m);
        proof {
            lemma_fields_bytes_push(Seq::empty(), head[0]);
            lemma_fields_bytes_push(seq![head[0]], head[1]);
            lemma_fields_bytes_push(seq![head[0], head[1]], head[2]);
            assert(seq![head[0]] =~= Seq::<FieldModel>::empty().push(head[0]));
            assert(seq![head[0], head[1]] =~= seq![head[0]].push(head[1]));
            assert(head =~= seq![head[0], head[1]].push(head[2]));
            lemma_views_len(self.children@);
            lemma_bodies_len(m.children);
        }
        let ghost bodies = spec_entry_bodies(m.children);
        let ghost mut fs = head;
        let mut i: usize = 0;
        while i < self.children.len()
            invariant
                i <= self.children@.len(),
                m == self@,
                bodies == spec_entry_bodies(m.children),
                bodies.len() == self.children@.len(),
                m.children.len() == self.children@.len(),
                forall|j: int| 0 <= j < self.children@.len() ==> #[trigger] m.children[j] == self.children@[j]@,
                forall|j: int| 0 <= j < bodies.len() ==> #[trigger] bodies[j] == spec_encode_entry(m.children[j]),
                fs == head + spec_nested_list(4, bodies.take(i as int)),
                buf@ == spec_fields_bytes(fs),
            decreases self.children@.len() - i,
        {
            let body = self.children[i].encode_body();
            encode_nested_field(&mut buf, 4, body.as_slice());
            proof {
                assert(bodies[i as int] == body@);
                lemma_fields_bytes_push(fs, spec_nested_model(4, body@));
                fs = fs.push(spec_nested_model(4, body@));
                assert(fs =~= head + spec_nested_list(4, bodies.take(i + 1)));
            }
            i = i + 1;
        }
        assert(bodies.take(i as int) =~= bodies);
        buf
    }

    /// Deserialize an entry body.
    ///
    /// # Errors
    ///
    /// A malformed field, a missing name, kind or size, an unknown kind,
    /// invalid UTF-8 in the name, or the first child that fails to decode.
    pub fn decode_body(buf: &[u8]) -> (r: Result<FileEntry, TypeError>)
        ensures
            r matches Ok(b) ==> spec_decode_entry(buf@) == Ok::<FileEntryModel, TypeError>(b@),
            r matches Err(e) ==> spec_decode_entry(buf@) == Err::<FileEntryModel, TypeError>(e),
        decreases buf@.len(),
    {
        let fields = match read_all_fields(buf) {
            Ok(f) => f,
            Err(e) => return Err(e),
        };
        let name = match req_str(&fields, 1, "name") {
            Ok(x) => x,
            Err(e) => return Err(e),
        };
        let vk = match req_varint(&fields, 2, "kind") {
            Ok(x) => x,
            Err(e) => return Err(e),
        };
        let kind = match kind_from_u64(vk) {
            Ok(x) => x,
            Err(e) => return Err(e),
        };
        let size = match req_varint(&fields, 3, "size") {
            Ok(x) => x,
            Err(e) => return Err(e),
        };
        let datas = all_nested(&fields, 4);
        let ghost fs = spec_models(fields@);
        let ghost ds = spec_all_nested(fs, 4);
        let ghost bound = buf@.len();
        proof {
            lemma_read_fields_shorter(buf@);
            lemma_all_nested_bounded(fs, 4, bound);
            assert(ds.len() == datas@.len());
        }
        let mut children: Vec<FileEntry> = Vec::new();
        let mut i: usize = 0;
        assert(ds.take(0) =~= Seq::<Seq<u8>>::empty());
        assert(spec_entries_view(children@) =~= Seq::<FileEntryModel>::empty());
        while i < datas.len()
            invariant
                i <= datas@.len(),
                datas@.map_values(|d: &[u8]| d@) == ds,
                bound == buf@.len(),
                forall|j: int| 0 <= j < ds.len() ==> #[trigger] ds[j].len() < bound,
                spec_read_fields(buf@) == Ok::<Seq<FieldModel>, TypeError>(fs),
                spec_req_str(fs, 1, "name") == Ok::<Seq<char>, TypeError>(name@),
                spec_req_varint(fs, 2, "kind") == Ok::<u64, TypeError>(vk),
                spec_kind_from_u64(vk) == Ok::<FileEntryKind, TypeError>(kind),
                spec_req_varint(fs, 3, "size") == Ok::<u64, TypeError>(size),
                ds == spec_all_nested(fs, 4),
                spec_decode_entries(ds.take(i as int), bound) == Ok::<
                    Seq<FileEntryModel>,
                    TypeError,
                >(spec_entries_view(children@)),
            decreases datas@.len() - i,
        {
            proof {
                assert(ds.take(i + 1).drop_last() =~= ds.take(i as int));
                assert(ds[i as int] == datas@[i as int]@);
                assert(ds.take(i + 1).last() == ds[i as int]);
            }
            match FileEntry::decode_body(datas[i]) {
                Ok(c) => {
                    let ghost before = children@;
                    children.push(c);
                    assert(children@.drop_last() =~= before);
                },
                Err(e) => {
                    proof {
                        lemma_entries_prefix_error(ds, (i + 1) as nat, bound);
                    }
                    return Err(e);
                },
            }
            i = i + 1;
        }
        assert(ds.take(i as int) =~= ds);
        Ok(FileEntry { name, kind, size, children })
    }
}

/// An error decoding a prefix of the entries is the error for all of them.
proof fn lemma_entries_prefix_error(ds: Seq<Seq<u8>>, k: nat, bound: nat)
    requires
        k <= ds.len(),
        spec_decode_entries(ds.take(k as int), bound) is Err,
    ensures
        spec_decode_entries(ds, bound) == spec_decode_entries(ds.take(k as int), bound),
    decreases ds.len() - k,
{
    if k < ds.len() {
        assert(ds.take((k + 1) as int).drop_last() =~= ds.take(k as int));
        lemma_entries_prefix_error(ds, k + 1, bound);
    } else {
        assert(ds.take(k as int) =~= ds);
    }
}

/// Decoding the encoding of an entry gives it back.
pub proof fn lemma_entry_roundtrip(m: FileEntryModel)
    requires
        spec_entry_fits(m),
    ensures
        spec_decode_entry(spec_encode_entry(m)) == Ok::<FileEntryModel, TypeError>(m),
    decreases m, 0int,
{
    let head = spec_entry_head(m);
    let ds = spec_entry_bodies(m.children);
    let s = spec_encode_entry(m);
    lemma_bodies_len(m.children);
    lemma_entries_fit_bodies(m.children);
    assert(spec_canonical_field(head[0]));
    assert(spec_all_canonical(head));
    lemma_nested_list_canonical(head, 4, ds);
    lemma_read_fields_roundtrip(head + spec_nested_list(4, ds));
    lemma_nested_tail(head, 4, ds, 1);
    lemma_nested_tail(head, 4, ds, 2);
    lemma_nested_tail(head, 4, ds, 3);
    reveal_with_fuel(spec_last_varint, 4);
    reveal_with_fuel(spec_last_bytes, 4);
    reveal_with_fuel(spec_all_nested, 4);
    assert(spec_all_nested(head, 4) =~= Seq::<Seq<u8>>::empty());
    assert(Seq::<Seq<u8>>::empty() + ds =~= ds);
    lemma_file_entry_kind_roundtrip(m.kind);
    lemma_read_fields_shorter(s);
    let fs = head + spec_nested_list(4, ds);
    lemma_all_nested_bounded(fs, 4, s.len());
    lemma_entries_roundtrip(m.children, s.len());
}

/// The bodies of a list of fitting entries fit.
proof fn lemma_entries_fit_bodies(ms: Seq<FileEntryModel>)
    requires
        spec_entries_fit(ms),
    ensures
        forall|i: int| 0 <= i < ms.len() ==> #[trigger] spec_encode_entry(ms[i]).len() <= u64::MAX,
        forall|i: int| 0 <= i < ms.len() ==> #[trigger] spec_entry_fits(ms[i]),
    decreases ms.len(),
{
    if ms.len() > 0 {
        lemma_entries_fit_bodies(ms.drop_last());
        assert forall|i: int| 0 <= i < ms.len() implies #[trigger] spec_encode_entry(ms[i]).len()
            <= u64::MAX by {
            if i < ms.len() - 1 {
                assert(ms.drop_last()[i] == ms[i]);
            }
        }
        assert forall|i: int| 0 <= i < ms.len() implies #[trigger] spec_entry_fits(ms[i]) by {
            if i < ms.len() - 1 {
                assert(ms.drop_last()[i] == ms[i]);
            }
        }
    }
}

/// Decoding the bodies of fitting entries, each shorter than the bound,
/// gives the entries back.
proof fn lemma_entries_roundtrip(ms: Seq<FileEntryModel>, bound: nat)
    requires
        spec_entries_fit(ms),
        forall|i: int|
            0 <= i < spec_entry_bodies(ms).len() ==> #[trigger] spec_entry_bodies(ms)[i].len() < bound,
    ensures
        spec_decode_entries(spec_entry_bodies(ms), bound) == Ok::<Seq<FileEntryModel>, TypeError>(ms),
    decreases ms, 1int,
{
    if ms.len() == 0 {
        assert(ms =~= Seq::<FileEntryModel>::empty());
    } else {
        let ds = spec_entry_bodies(ms);
        lemma_bodies_len(ms);
        lemma_bodies_len(ms.drop_last());
        assert(ds.drop_last() =~= spec_entry_bodies(ms.drop_last()));
        assert forall|i: int|
            0 <= i < spec_entry_bodies(ms.drop_last()).len() implies #[trigger] spec_entry_bodies(
            ms.drop_last(),
        )[i].len() < bound by {
            assert(spec_entry_bodies(ms.drop_last())[i] == ds[i]);
        }
        lemma_entries_roundtrip(ms.drop_last(), bound);
        assert(ds.last() == ds[ds.len() - 1]);
        lemma_entry_roundtrip(ms.last());
        assert(ms.drop_last().push(ms.last()) =~= ms);
    }
}

/// A directory structure under a root path.
#[derive(Debug, PartialEq, Eq)]
pub struct FileTreeBlock {
    pub root_path: String,
    pub entries: Vec<FileEntry>,
}

/// The view of a [`FileTreeBlock`].
pub struct FileTreeModel {
    pub root_path: Seq<char>,
    pub entries: Seq<FileEntryModel>,
}

impl View for FileTreeBlock {
    type V = FileTreeModel;

    open spec fn view(&self) -> FileTreeModel {
        FileTreeModel { root_path: self.root_path@, entries: spec_entries_view(self.entries@) }
    }
}

/// The bytes of a file tree body: the root path, then one nested field
/// per top-level entry.
pub open spec fn spec_encode_file_tree(m: FileTreeModel) -> Seq<u8> {
    spec_fields_bytes(
        seq![spec_str_model(1, m.root_path)] + spec_nested_list(2, spec_entry_bodies(m.entries)),
    )
}

/// Decoding a file tree body.
pub open spec fn spec_decode_file_tree(s: Seq<u8>) -> Result<FileTreeModel, TypeError> {
    match spec_read_fields(s) {
        Err(e) => Err(e),
        Ok(fs) => match spec_req_str(fs, 1, "root_path") {
            Err(e) => Err(e),
            Ok(root_path) => match spec_decode_entries(spec_all_nested(fs, 2), s.len()) {
                Err(e) => Err(e),
                Ok(entries) => Ok(FileTreeModel { root_path, entries }),
            },
        },
    }
}

impl FileTreeBlock {
    /// Serialize the body as TLV fields.
    pub fn encode_body(&self) -> (r: Vec<u8>)
        ensures
            r@ == spec_encode_file_tree(self@),
    {
        let mut buf: Vec<u8> = Vec::new();
        let ghost m = self@;
        encode_bytes_field(&mut buf, 1, self.root_path.as_str().as_bytes());
        let ghost head = seq![spec_str_model(1, m.root_path)];
        proof {
            lemma_fields_bytes_push(Seq::empty(), head[0]);
            assert(head =~= Seq::<FieldModel>::empty().push(head[0]));
            lemma_views_len(self.entries@);
            lemma_bodies_len(m.entries);
        }
        let ghost bodies = spec_entry_bodies(m.entries);
        let ghost mut fs = head;
        let mut i: usize = 0;
        while i < self.entries.len()
            invariant
                i <= self.entries@.len(),
                m == self@,
                bodies == spec_entry_bodies(m.entries),
                bodies.len() == self.entries@.len(),
                m.entries.len() == self.entries@.len(),
                forall|j: int| 0 <= j < self.entries@.len() ==> #[trigger] m.entries[j] == self.entries@[j]@,
                forall|j: int| 0 <= j < bodies.len() ==> #[trigger] bodies[j] == spec_encode_entry(m.entries[j]),
                fs == head + spec_nested_list(2, bodies.take(i as int)),
                buf@ == spec_fields_bytes(fs),
            decreases self.entries@.len() - i,
        {
            let body = self.entries[i].encode_body();
            encode_nested_field(&mut buf, 2, body.as_slice());
            proof {
                assert(bodies[i as int] == body@);
                lemma_fields_bytes_push(fs, spec_nested_model(2, body@));
                fs = fs.push(spec_nested_model(2, body@));
                assert(fs =~= head + spec_nested_list(2, bodies.take(i + 1)));
            }
            i = i + 1;
        }
        assert(bodies.take(i as int) =~= bodies);
        buf
    }

    /// Deserialize a body.
    ///
    /// # Errors
    ///
    /// A malformed field, a missing root path, invalid UTF-8, or the first
    /// entry that fails to decode.
    pub fn decode_body(buf: &[u8]) -> (r: Result<FileTreeBlock, TypeError>)
        ensures
            r matches Ok(b) ==> spec_decode_file_tree(buf@) == Ok::<FileTreeModel, TypeError>(b@),
            r matches Err(e) ==> spec_decode_file_tree(buf@) == Err::<FileTreeModel, TypeError>(e),
    {
        let fields = match read_all_fields(buf) {
            Ok(f) => f,
            Err(e) => return Err(e),
        };
        let root_path = match req_str(&fields, 1, "root_path") {
            Ok(x) => x,
            Err(e) => return Err(e),
        };
        let datas = all_nested(&fields, 2);
        let ghost fs = spec_models(fields@);
        let ghost ds = spec_all_nested(fs, 2);
        let ghost bound = buf@.len();
        proof {
            lemma_read_fields_shorter(buf@);
            lemma_all_nested_bounded(fs, 2, bound);
            assert(ds.len() == datas@.len());
        }
        let mut entries: Vec<FileEntry> = Vec::new();
        let mut i: usize = 0;
        assert(ds.take(0) =~= Seq::<Seq<u8>>::empty());
        assert(spec_entries_view(entries@) =~= Seq::<FileEntryModel>::empty());
        while i < datas.len()
            invariant
                i <= datas@.len(),
                datas@.map_values(|d: &[u8]| d@) == ds,
                bound == buf@.len(),
                forall|j: int| 0 <= j < ds.len() ==> #[trigger] ds[j].len() < bound,
                spec_read_fields(buf@) == Ok::<Seq<FieldModel>, TypeError>(fs),
                spec_req_str(fs, 1, "root_path") == Ok::<Seq<char>, TypeError>(root_path@),
                ds == spec_all_nested(fs, 2),
                spec_decode_entries(ds.take(i as int), bound) == Ok::<
                    Seq<FileEntryModel>,
                    TypeError,
                >(spec_entries_view(entries@)),
            decreases datas@.len() - i,
        {
            proof {
                assert(ds.take(i + 1).drop_last() =~= ds.take(i as int));
                assert(ds[i as int] == datas@[i as int]@);
                assert(ds.take(i + 1).last() == ds[i as int]);
            }
            match FileEntry::decode_body(datas[i]) {
                Ok(c) => {
                    let ghost before = entries@;
                    entries.push(c);
                    assert(entries@.drop_last() =~= before);
                },
                Err(e) => {
                    proof {
                        lemma_entries_prefix_error(ds, (i + 1) as nat, bound);
                    }
                    return Err(e);
                },
            }
            i = i + 1;
        }
        assert(ds.take(i as int) =~= ds);
        Ok(FileTreeBlock { root_path, entries })
    }
}

/// Decoding the encoding of a file tree body gives it back.
pub proof fn lemma_file_tree_roundtrip(m: FileTreeModel)
    requires
        encode_utf8(m.root_path).len() <= u64::MAX,
        spec_entries_fit(m.entries),
    ensures
        spec_decode_file_tree(spec_encode_file_tree(m)) == Ok::<FileTreeModel, TypeError>(m),
{
    let head = seq![spec_str_model(1, m.root_path)];
    let ds = spec_entry_bodies(m.entries);
    let s = spec_encode_file_tree(m);
    lemma_bodies_len(m.entries);
    lemma_entries_fit_bodies(m.entries);
    assert(spec_canonical_field(head[0]));
    assert(spec_all_canonical(head));
    lemma_nested_list_canonical(head, 2, ds);
    lemma_read_fields_roundtrip(head + spec_nested_list(2, ds));
    lemma_nested_tail(head, 2, ds, 1);
    reveal_with_fuel(spec_last_bytes, 2);
    reveal_with_fuel(spec_all_nested, 2);
    assert(spec_all_nested(head, 2) =~= Seq::<Seq<u8>>::empty());
    assert(Seq::<Seq<u8>>::empty() + ds =~= ds);
    lemma_read_fields_shorter(s);
    lemma_all_nested_bounded(head + spec_nested_list(2, ds), 2, s.len());
    lemma_entries_roundtrip(m.entries, s.len());
}

} // verus!
