//! `multipart/form-data` bodies: the parts multer reads from a body, and
//! what becomes of each one (`compat::plan_upload`).  Storing files on
//! disk is left to the caller, which follows the plans.
use bytes::Bytes;
use futures_util::{future, stream, FutureExt};

use vstd::prelude::*;

use crate::compat::{extension_blocked, has_php_code, plan_upload, upload_plan, UploadPlan, UploadSecurityConfig};
use crate::config::str_views;

verus! {

/// One part of a `multipart/form-data` body.
pub struct MultipartPart {
    /// The part's field name (empty when it has none).
    pub name: String,
    /// The file name, for a file part.
    pub file_name: Option<String>,
    /// The part's content type (empty when it has none).
    pub content_type: String,
    pub data: Vec<u8>,
}

/// A part as plain values: name, file name, content type, bytes.
pub open spec fn part_view(p: MultipartPart) -> (Seq<char>, Option<Seq<char>>, Seq<char>, Seq<u8>) {
    (
        p.name@,
        match p.file_name {
            Some(f) => Some(f@),
            None => None,
        },
        p.content_type@,
        p.data@,
    )
}

/// The views of a list of parts.
pub open spec fn part_views(ps: Seq<MultipartPart>) -> Seq<(Seq<char>, Option<Seq<char>>, Seq<char>, Seq<u8>)> {
    ps.map_values(|p: MultipartPart| part_view(p))
}

/// The boundary `multer::parse_boundary` reads from a content type, if
/// it is `multipart/form-data` with one.
pub uninterp spec fn boundary_of(content_type: Seq<char>) -> Option<Seq<char>>;

/// The parts multer reads from `body` with `boundary`, in order, up to
/// the first error; a part whose bytes cannot be read is left out.
pub uninterp spec fn multipart_fields(boundary: Seq<char>, body: Seq<u8>) -> Seq<
    (Seq<char>, Option<Seq<char>>, Seq<char>, Seq<u8>),
>;

/// The parts of a body of type `content_type`: none without a boundary.
pub open spec fn parts_of(content_type: Seq<char>, body: Seq<u8>) -> Seq<
    (Seq<char>, Option<Seq<char>>, Seq<char>, Seq<u8>),
> {
    match boundary_of(content_type) {
        Some(b) => multipart_fields(b, body),
        None => seq![],
    }
}

/// `multer::parse_boundary`.
#[verifier::external_body]
fn multipart_boundary(content_type: &str) -> (r: Option<String>)
    ensures
        match r {
            Some(b) => boundary_of(content_type@) == Some(b@),
            None => boundary_of(content_type@) is None,
        },
{
    multer::parse_boundary(content_type).ok()
}

/// `Multipart::next_field` and `Field::bytes` over the body as one
/// chunk, until the first error or the end.  Every step completes at
/// once, as the whole body is already there.
#[verifier::external_body]
fn multipart_parts(boundary: String, body: &[u8]) -> (r: Vec<MultipartPart>)
    ensures
        part_views(r@) == multipart_fields(boundary@, body@),
{
    let chunk: Result<Bytes, std::io::Error> = Ok(Bytes::copy_from_slice(body));
    let mut mp = multer::Multipart::new(stream::once(future::ready(chunk)), boundary);
    let mut out = Vec::new();
    while let Some(Ok(Some(f))) = mp.next_field().now_or_never() {
        let (name, file_name) = (f.name().unwrap_or("").to_string(), f.file_name().map(String::from));
        let content_type = f.content_type().map(|m| m.to_string()).unwrap_or_default();
        if let Some(Ok(d)) = f.bytes().now_or_never() {
            out.push(MultipartPart { name, file_name, content_type, data: d.to_vec() });
        }
    }
    out
}

/// How many of `plans` store a file.
pub open spec fn stored_count(plans: Seq<UploadPlan>) -> nat
    decreases plans.len(),
{
    if plans.len() == 0 {
        0
    } else {
        stored_count(plans.drop_last()) + (if plans.last() is Store { 1nat } else { 0nat })
    }
}

/// `plans` are the plans of `fields` in order: each as `plan_upload`
/// decides it, the files stored before it counted.
pub open spec fn plans_of(
    fields: Seq<(Seq<char>, Option<Seq<char>>, Seq<char>, Seq<u8>)>,
    plans: Seq<UploadPlan>,
    blocked: Seq<Seq<char>>,
    scan: bool,
    dir: Seq<char>,
    pid: u32,
) -> bool {
    &&& plans.len() == fields.len()
    &&& forall|i: int|
        0 <= i < fields.len() ==> upload_plan(
            fields[i].1,
            fields[i].2,
            fields[i].3,
            blocked,
            scan,
            dir,
            pid,
            stored_count(plans.take(i)),
            fields[i].0,
            #[trigger] plans[i],
        )
}

/// No refused file is stored: a file part whose name carries a blocked
/// extension, or (when content is scanned) whose bytes carry PHP code,
/// is planned as refused, never stored; any other named file is stored.
pub proof fn lemma_refused_files_never_stored(
    fields: Seq<(Seq<char>, Option<Seq<char>>, Seq<char>, Seq<u8>)>,
    plans: Seq<UploadPlan>,
    blocked: Seq<Seq<char>>,
    scan: bool,
    dir: Seq<char>,
    pid: u32,
    i: int,
)
    requires
        plans_of(fields, plans, blocked, scan, dir, pid),
        0 <= i < fields.len(),
    ensures
        fields[i].1 matches Some(f) && f.len() > 0 && extension_blocked(f, blocked) ==> plans[i] is BlockedExtension,
        fields[i].1 matches Some(f) && f.len() > 0 && !extension_blocked(f, blocked) && scan && has_php_code(
            fields[i].3,
        ) ==> plans[i] is BlockedContent,
        fields[i].1 matches Some(f) && f.len() > 0 && !extension_blocked(f, blocked) && !(scan && has_php_code(
            fields[i].3,
        )) ==> plans[i] is Store,
{
    assert(upload_plan(
        fields[i].1,
        fields[i].2,
        fields[i].3,
        blocked,
        scan,
        dir,
        pid,
        stored_count(plans.take(i)),
        fields[i].0,
        plans[i],
    ));
}

/// Reads the parts of a `multipart/form-data` body and plans each one:
/// the parts as multer reads them, and beside each its plan, files
/// numbered in the order they are stored.
pub fn parse_multipart(
    content_type: &str,
    body: &[u8],
    tmp_dir: &str,
    security: &UploadSecurityConfig,
    pid: u32,
) -> (r: (Vec<MultipartPart>, Vec<UploadPlan>))
    ensures
        part_views(r.0@) == parts_of(content_type@, body@),
        plans_of(
            part_views(r.0@),
            r.1@,
            str_views(security.blocked_extensions@),
            security.scan_content,
            tmp_dir@,
            pid,
        ),
{
    let parts = match multipart_boundary(content_type) {
        Some(b) => multipart_parts(b, body),
        None => {
            let v: Vec<MultipartPart> = Vec::new();
            assert(part_views(v@) =~= seq![]);
            v
        },
    };
    let ghost fs = part_views(parts@);
    let ghost blocked = str_views(security.blocked_extensions@);
    let mut plans: Vec<UploadPlan> = Vec::new();
    let mut stored: usize = 0;
    let mut i: usize = 0;
    while i < parts.len()
        invariant
            i <= parts@.len(),
            fs == part_views(parts@),
            blocked == str_views(security.blocked_extensions@),
            plans@.len() == i,
            stored as nat == stored_count(plans@),
            stored <= i,
            forall|j: int|
                0 <= j < i ==> upload_plan(
                    fs[j].1,
                    fs[j].2,
                    fs[j].3,
                    blocked,
                    security.scan_content,
                    tmp_dir@,
                    pid,
                    stored_count(plans@.take(j)),
                    fs[j].0,
                    #[trigger] plans@[j],
                ),
        decreases parts@.len() - i,
    {
        let p = &parts[i];
        assert(fs[i as int] == part_view(parts@[i as int]));
        let fname = match &p.file_name {
            Some(f) => Some(f.as_str()),
            None => None,
        };
        let plan = plan_upload(
            p.name.as_str(),
            fname,
            p.content_type.as_str(),
            p.data.as_slice(),
            security,
            tmp_dir,
            pid,
            stored,
        );
        let is_store = match &plan {
            UploadPlan::Store { .. } => true,
            _ => false,
        };
        let ghost before = plans@;
        plans.push(plan);
        proof {
            assert(plans@.take(i as int) =~= before);
            assert(plans@.drop_last() =~= before);
            assert forall|j: int| 0 <= j < i implies plans@.take(j) =~= before.take(j) by {}
        }
        if is_store {
            stored = stored + 1;
        }
        i = i + 1;
    }
    assert(plans@.len() == fs.len());
    (parts, plans)
}

} // verus!
