//! The DIFF block: a file path and its hunks, each hunk a nested field.
use vstd::prelude::*;
use vstd::string::StringSliceAdditionalSpecFns;
use vstd::utf8::encode_utf8;
use crate::blocks::{DiffHunk, DiffHunkModel, lemma_hunk_roundtrip, spec_decode_hunk, spec_encode_hunk};
use crate::fields::{
    FieldModel, TypeError, all_nested, encode_bytes_field, encode_nested_field,
    lemma_fields_bytes_push, lemma_nested_list_canonical, lemma_nested_tail,
    lemma_read_fields_roundtrip, read_all_fields, req_str, spec_all_canonical, spec_all_nested,
    spec_canonical_field, spec_fields_bytes, spec_last_bytes, spec_models, spec_nested_list,
    spec_nested_model, spec_read_fields, spec_req_str, spec_str_model,
};

verus! {

broadcast use vstd::utf8::encode_utf8_valid_utf8, vstd::utf8::encode_utf8_decode_utf8;

/// Code changes for one file.
#[derive(Clone, Debug, PartialEq, Eq)]
pub struct DiffBlock {
    pub path: String,
    pub hunks: Vec<DiffHunk>,
}

/// The view of a [`DiffBlock`].
pub struct DiffModel {
    pub path: Seq<char>,
    pub hunks: Seq<DiffHunkModel>,
}

impl View for DiffBlock {
    type V = DiffModel;

    open spec fn view(&self) -> DiffModel {
        DiffModel { path: self.path@, hunks: self.hunks@.map_values(|h: DiffHunk| h@) }
    }
}

/// The encoded bodies of the hunks.
pub open spec fn spec_hunk_bodies(hs: Seq<DiffHunkModel>) -> Seq<Seq<u8>> {
    hs.map_values(|h: DiffHunkModel| spec_encode_hunk(h))
}

/// The fields of a diff body: the path, then one nested field per hunk.
pub open spec fn spec_diff_fields(m: DiffModel) -> Seq<FieldModel> {
    seq![spec_str_model(1, m.path)] + spec_nested_list(2, spec_hunk_bodies(m.hunks))
}

/// The bytes of a diff body.
pub open spec fn spec_encode_diff(m: DiffModel) -> Seq<u8> {
    spec_fields_bytes(spec_diff_fields(m))
}

/// Decoding a list of hunk bodies; the first error wins.
pub open spec fn spec_decode_hunks(ds: Seq<Seq<u8>>) -> Result<Seq<DiffHunkModel>, TypeError>
    decreases ds.len(),
{
    if ds.len() == 0 {
        Ok(Seq::empty())
    } else {
        match spec_decode_hunks(ds.drop_last()) {
            Err(e) => Err(e),
            Ok(hs) => match spec_decode_hunk(ds.last()) {
                Err(e) => Err(e),
                Ok(h) => Ok(hs.push(h)),
            },
        }
    }
}

/// Decoding a diff body.
pub open spec fn spec_decode_diff(s: Seq<u8>) -> Result<DiffModel, TypeError> {
    match spec_read_fields(s) {
        Err(e) => Err(e),
        Ok(fs) => match spec_req_str(fs, 1, "path") {
            Err(e) => Err(e),
            Ok(path) => match spec_decode_hunks(spec_all_nested(fs, 2)) {
                Err(e) => Err(e),
                Ok(hunks) => Ok(DiffModel { path, hunks }),
            },
        },
    }
}

impl DiffBlock {
    /// Serialize the body as TLV fields.
    pub fn encode_body(&self) -> (r: Vec<u8>)
        ensures
            r@ == spec_encode_diff(self@),
    {
        let mut buf: Vec<u8> = Vec::new();
        encode_bytes_field(&mut buf, 1, self.path.as_str().as_bytes());
        let ghost mut fs = seq![spec_str_model(1, self.path@)];
        proof {
            lemma_fields_bytes_push(Seq::empty(), spec_str_model(1, self.path@));
            assert(Seq::<FieldModel>::empty().push(spec_str_model(1, self.path@)) =~= fs);
        }
        let ghost bodies = spec_hunk_bodies(self@.hunks);
        let mut i: usize = 0;
        while i < self.hunks.len()
            invariant
                i <= self.hunks@.len(),
                bodies == spec_hunk_bodies(self@.hunks),
                bodies.len() == self.hunks@.len(),
                fs == seq![spec_str_model(1, self.path@)] + spec_nested_list(2, bodies.take(i as int)),
                buf@ == spec_fields_bytes(fs),
            decreases self.hunks@.len() - i,
        {
            let body = self.hunks[i].encode_body();
            encode_nested_field(&mut buf, 2, body.as_slice());
            proof {
                assert(bodies[i as int] == spec_encode_hunk(self.hunks@[i as int]@));
                lemma_fields_bytes_push(fs, spec_nested_model(2, body@));
                fs = fs.push(spec_nested_model(2, body@));
                assert(fs =~= seq![spec_str_model(1, self.path@)] + spec_nested_list(
                    2,
                    bodies.take(i + 1),
                ));
            }
            i = i + 1;
        }
        assert(bodies.take(i as int) =~= bodies);
        buf
    }

    /// Deserialize a body.
    ///
    /// # Errors
    ///
    /// A malformed field, a missing path, invalid UTF-8 in the path, or the
    /// first hunk that fails to decode.
    pub fn decode_body(buf: &[u8]) -> (r: Result<DiffBlock, TypeError>)
        ensures
            r matches Ok(b) ==> spec_decode_diff(buf@) == Ok::<DiffModel, TypeError>(b@),
            r matches Err(e) ==> spec_decode_diff(buf@) == Err::<DiffModel, TypeError>(e),
    {
        let fields = match read_all_fields(buf) {
            Ok(f) => f,
            Err(e) => return Err(e),
        };
        let path = match req_str(&fields, 1, "path") {
            Ok(x) => x,
            Err(e) => return Err(e),
        };
        let datas = all_nested(&fields, 2);
        let ghost ds = spec_all_nested(spec_models(fields@), 2);
        let mut hunks: Vec<DiffHunk> = Vec::new();
        let mut i: usize = 0;
        assert(ds.take(0) =~= Seq::<Seq<u8>>::empty());
        assert(hunks@.map_values(|h: DiffHunk| h@) =~= Seq::<DiffHunkModel>::empty());
        while i < datas.len()
            invariant
                i <= datas@.len(),
                datas@.map_values(|d: &[u8]| d@) == ds,
                spec_read_fields(buf@) == Ok::<Seq<FieldModel>, TypeError>(spec_models(fields@)),
                spec_req_str(spec_models(fields@), 1, "path") == Ok::<Seq<char>, TypeError>(path@),
                ds == spec_all_nested(spec_models(fields@), 2),
                spec_decode_hunks(ds.take(i as int)) == Ok::<Seq<DiffHunkModel>, TypeError>(
                    hunks@.map_values(|h: DiffHunk| h@),
                ),
            decreases datas@.len() - i,
        {
            proof {
                assert(ds.take(i + 1).drop_last() =~= ds.take(i as int));
                assert(ds[i as int] == datas@[i as int]@);
            }
            match DiffHunk::decode_body(datas[i]) {
                Ok(h) => {
                    let ghost before = hunks@;
                    hunks.push(h);
                    assert(hunks@.map_values(|h: DiffHunk| h@) =~= before.map_values(
                        |h: DiffHunk| h@,
                    ).push(h@));
                },
                Err(e) => {
                    proof {
                        assert(ds.take(i + 1).last() == ds[i as int]);
                        assert(spec_decode_hunks(ds.take(i + 1)) == Err::<Seq<DiffHunkModel>, TypeError>(e));
                        lemma_hunks_prefix_error(ds, (i + 1) as nat);
                        assert(spec_decode_hunks(ds) == Err::<Seq<DiffHunkModel>, TypeError>(e));
                        assert(spec_decode_diff(buf@) == Err::<DiffModel, TypeError>(e));
                    }
                    return Err(e);
                },
            }
            i = i + 1;
        }
        assert(ds.take(i as int) =~= ds);
        Ok(DiffBlock { path, hunks })
    }
}

/// An error decoding a prefix of the hunks is the error for all of them.
proof fn lemma_hunks_prefix_error(ds: Seq<Seq<u8>>, k: nat)
    requires
        k <= ds.len(),
        spec_decode_hunks(ds.take(k as int)) is Err,
    ensures
        spec_decode_hunks(ds) == spec_decode_hunks(ds.take(k as int)),
    decreases ds.len() - k,
{
    if k < ds.len() {
        assert(ds.take((k + 1) as int).drop_last() =~= ds.take(k as int));
        lemma_hunks_prefix_error(ds, k + 1);
    } else {
        assert(ds.take(k as int) =~= ds);
    }
}

proof fn lemma_decode_hunks_roundtrip(hs: Seq<DiffHunkModel>)
    requires
        forall|i: int| 0 <= i < hs.len() ==> #[trigger] hs[i].lines.len() <= u64::MAX,
    ensures
        spec_decode_hunks(spec_hunk_bodies(hs)) == Ok::<Seq<DiffHunkModel>, TypeError>(hs),
    decreases hs.len(),
{
    if hs.len() > 0 {
        assert(spec_hunk_bodies(hs).drop_last() =~= spec_hunk_bodies(hs.drop_last()));
        lemma_decode_hunks_roundtrip(hs.drop_last());
        lemma_hunk_roundtrip(hs.last());
        assert(hs.drop_last().push(hs.last()) =~= hs);
    } else {
        assert(spec_hunk_bodies(hs) =~= Seq::<Seq<u8>>::empty());
        assert(hs =~= Seq::<DiffHunkModel>::empty());
    }
}

/// Decoding the encoding of a diff body gives it back.
pub proof fn lemma_diff_roundtrip(m: DiffModel)
    requires
        encode_utf8(m.path).len() <= u64::MAX,
        forall|i: int| 0 <= i < m.hunks.len() ==> #[trigger] m.hunks[i].lines.len() <= u64::MAX,
        forall|i: int| 0 <= i < m.hunks.len() ==> #[trigger] spec_encode_hunk(m.hunks[i]).len() <= u64::MAX,
    ensures
        spec_decode_diff(spec_encode_diff(m)) == Ok::<DiffModel, TypeError>(m),
{
    let head = seq![spec_str_model(1, m.path)];
    let ds = spec_hunk_bodies(m.hunks);
    assert(spec_canonical_field(head[0]));
    assert(spec_all_canonical(head));
    assert forall|i: int| 0 <= i < ds.len() implies #[trigger] ds[i].len() <= u64::MAX by {
        assert(ds[i] == spec_encode_hunk(m.hunks[i]));
    }
    lemma_nested_list_canonical(head, 2, ds);
    lemma_read_fields_roundtrip(spec_diff_fields(m));
    lemma_nested_tail(head, 2, ds, 1);
    reveal_with_fuel(spec_last_bytes, 2);
    reveal_with_fuel(spec_all_nested, 2);
    assert(spec_all_nested(head, 2) =~= Seq::<Seq<u8>>::empty());
    assert(Seq::<Seq<u8>>::empty() + ds =~= ds);
    lemma_decode_hunks_roundtrip(m.hunks);
}

} // verus!
