use vstd::prelude::*;
use crate::path::{is_separator, joined, valid_name, validate_name, within_root, join_child, get_valid_joined_path, PathError};

verus! {

/// One call of the chunked upload.
#[derive(Debug)]
pub struct UploadFileChunkRequest {
    pub dir_path: String,
    pub file_name: String,
    pub file_size: u64,
    pub chunk_data: Vec<u8>,
    pub chunk_id: u64,
    pub chunk_count: u64,
    pub chunk_offset: u64,
    pub abort: bool,
}

/// Why a request of the management service failed.
#[derive(Debug, Clone, Copy, PartialEq, Eq, Structural)]
pub enum ServiceError {
    /// A path was refused by the sandbox.
    Path(PathError),
    /// A path could not be resolved on disk.
    Unresolved,
    /// The chunk's index is not below the chunk count.
    InvalidChunk,
    /// The chunk would end past the declared file size.
    ChunkOutOfBounds,
    /// A modification time lies before the epoch.
    BeforeEpoch,
}

/// One operation on the filesystem.
#[derive(Debug)]
pub enum FsStep {
    /// Create or truncate the file and write `data` into it.
    WriteFile { path: String, data: Vec<u8> },
    /// Open the file (create or truncate it when `create`, else it must
    /// exist), write `data` at `offset`, and sync it to disk.
    WriteAt { path: String, data: Vec<u8>, offset: u64, create: bool },
    /// Remove the file, which must exist.
    RemoveFile { path: String },
    /// Remove the file if it exists.
    RemoveIfExists { path: String },
    /// Rename a file, which must exist, replacing the destination.
    Rename { from: String, to: String },
}

/// A filesystem operation over mathematical values.
pub enum StepView {
    WriteFile(Seq<char>, Seq<u8>),
    WriteAt(Seq<char>, Seq<u8>, nat, bool),
    RemoveFile(Seq<char>),
    RemoveIfExists(Seq<char>),
    Rename(Seq<char>, Seq<char>),
}

impl View for FsStep {
    type V = StepView;

    open spec fn view(&self) -> StepView {
        match self {
            FsStep::WriteFile { path, data } => StepView::WriteFile(path@, data@),
            FsStep::WriteAt { path, data, offset, create } => StepView::WriteAt(
                path@,
                data@,
                *offset as nat,
                *create,
            ),
            FsStep::RemoveFile { path } => StepView::RemoveFile(path@),
            FsStep::RemoveIfExists { path } => StepView::RemoveIfExists(path@),
            FsStep::Rename { from, to } => StepView::Rename(from@, to@),
        }
    }
}

/// The views of a sequence of steps.
pub open spec fn steps_view(steps: Seq<FsStep>) -> Seq<StepView> {
    steps.map_values(|s: FsStep| s@)
}

/// A file's bytes after `data` is written at `off`; a gap reads as zeros.
pub open spec fn write_at(old: Seq<u8>, data: Seq<u8>, off: nat) -> Seq<u8> {
    let end = off + data.len();
    let len = if old.len() > end {
        old.len()
    } else {
        end
    };
    Seq::new(
        len as nat,
        |i: int|
            if off <= i < end {
                data[i - off]
            } else if i < old.len() {
                old[i]
            } else {
                0u8
            },
    )
}

/// The files on disk, by path; `None` where a step fails.
pub open spec fn apply_step(fs: Map<Seq<char>, Seq<u8>>, s: StepView) -> Option<
    Map<Seq<char>, Seq<u8>>,
> {
    match s {
        StepView::WriteFile(p, d) => Some(fs.insert(p, d)),
        StepView::WriteAt(p, d, off, create) => if create {
            Some(fs.insert(p, write_at(Seq::empty(), d, off)))
        } else if fs.contains_key(p) {
            Some(fs.insert(p, write_at(fs[p], d, off)))
        } else {
            None
        },
        StepView::RemoveFile(p) => if fs.contains_key(p) {
            Some(fs.remove(p))
        } else {
            None
        },
        StepView::RemoveIfExists(p) => Some(fs.remove(p)),
        StepView::Rename(a, b) => if fs.contains_key(a) {
            Some(fs.remove(a).insert(b, fs[a]))
        } else {
            None
        },
    }
}

/// The files after the steps run in order, stopping at the first failure.
pub open spec fn run_steps(fs: Map<Seq<char>, Seq<u8>>, steps: Seq<StepView>) -> Option<
    Map<Seq<char>, Seq<u8>>,
>
    decreases steps.len(),
{
    if steps.len() == 0 {
        Some(fs)
    } else {
        match apply_step(fs, steps[0]) {
            None => None,
            Some(next) => run_steps(next, steps.drop_first()),
        }
    }
}

/// The suffix of the temporary file of an upload.
pub open spec fn uploading_suffix() -> Seq<char> {
    seq!['.', 'u', 'p', 'l', 'o', 'a', 'd', 'i', 'n', 'g']
}

/// The visible file of an upload.
pub open spec fn target_path(dir: Seq<char>, name: Seq<char>) -> Seq<char> {
    joined(dir, name)
}

/// The temporary file of an upload, beside the target.
pub open spec fn temp_path(dir: Seq<char>, name: Seq<char>) -> Seq<char> {
    joined(dir, name + uploading_suffix())
}

/// Where an upload into the directory `dir` (canonical) of the sandbox `root`
/// writes: the directory, the target and the temporary file.
pub open spec fn upload_paths_of(root: Seq<char>, dir: Seq<char>, name: Seq<char>) -> Result<
    (Seq<char>, Seq<char>, Seq<char>),
    ServiceError,
> {
    if !within_root(root, dir) {
        Err(ServiceError::Path(PathError::PathEscape))
    } else if !valid_name(name) {
        Err(ServiceError::Path(PathError::InvalidName))
    } else {
        Ok((dir, target_path(dir, name), temp_path(dir, name)))
    }
}

/// The directory, target and temporary file of an upload, from the canonical
/// form of the directory; refused where the directory leaves the sandbox or
/// the name is not a single segment.
pub fn get_upload_path_names(root: &str, canonical_dir: &str, file_name: &str) -> (r: Result<
    (String, String, String),
    ServiceError,
>)
    ensures
        match upload_paths_of(root@, canonical_dir@, file_name@) {
            Ok((d, t, p)) => r matches Ok((d2, t2, p2)) && d2@ == d && t2@ == t && p2@ == p,
            Err(e) => r == Err::<(String, String, String), ServiceError>(e),
        },
{
    proof {
        reveal_strlit(".uploading");
    }
    let full_path = match get_valid_joined_path(root, canonical_dir) {
        Ok(p) => p,
        Err(e) => return Err(ServiceError::Path(e)),
    };
    match validate_name(file_name) {
        Ok(()) => {},
        Err(e) => return Err(ServiceError::Path(e)),
    }
    let target = join_child(full_path.as_str(), file_name);
    let temp_name = String::from_str(file_name).concat(".uploading");
    assert(temp_name@ =~= file_name@ + uploading_suffix());
    let temp = join_child(full_path.as_str(), temp_name.as_str());
    Ok((full_path, target, temp))
}

/// The steps of one call, for an upload whose target and temporary file are
/// `t` and `p`: an abort removes both; a sole chunk is the target; a first
/// chunk leaves an empty placeholder at the target and starts the temporary
/// file; a later chunk is written at its offset; the last one then replaces
/// the placeholder with the temporary file.
pub open spec fn chunk_steps_of(req: UploadFileChunkRequest, t: Seq<char>, p: Seq<char>) -> Result<
    Seq<StepView>,
    ServiceError,
> {
    let data = req.chunk_data@;
    if req.abort {
        Ok(seq![StepView::RemoveIfExists(t), StepView::RemoveIfExists(p)])
    } else if req.chunk_id >= req.chunk_count {
        Err(ServiceError::InvalidChunk)
    } else if req.chunk_id == 0 {
        if data.len() > req.file_size {
            Err(ServiceError::ChunkOutOfBounds)
        } else if req.chunk_count == 1 {
            Ok(seq![StepView::WriteFile(t, data)])
        } else {
            Ok(seq![StepView::WriteFile(t, Seq::empty()), StepView::WriteAt(p, data, 0, true)])
        }
    } else if req.chunk_offset + data.len() > req.file_size {
        Err(ServiceError::ChunkOutOfBounds)
    } else if req.chunk_id < req.chunk_count - 1 {
        Ok(seq![StepView::WriteAt(p, data, req.chunk_offset as nat, false)])
    } else {
        Ok(
            seq![
                StepView::WriteAt(p, data, req.chunk_offset as nat, false),
                StepView::RemoveFile(t),
                StepView::Rename(p, t),
            ],
        )
    }
}

/// The steps of one call of the upload, from the canonical form of its
/// directory (`None`: it could not be resolved).
pub open spec fn upload_steps_of(
    root: Seq<char>,
    canonical_dir: Option<Seq<char>>,
    req: UploadFileChunkRequest,
) -> Result<Seq<StepView>, ServiceError> {
    match canonical_dir {
        None => Err(ServiceError::Unresolved),
        Some(dir) => match upload_paths_of(root, dir, req.file_name@) {
            Err(e) => Err(e),
            Ok((_, t, p)) => chunk_steps_of(req, t, p),
        },
    }
}

/// What one call of the upload does on disk.
#[derive(Debug)]
pub struct UploadPlan {
    /// Run in order; stop at the first that fails.
    pub steps: Vec<FsStep>,
    /// Run, each whatever the others give, when a step failed or the call
    /// was rejected.
    pub cleanup: Vec<FsStep>,
    /// Why the call fails without writing: only the cleanup runs.
    pub rejected: Option<ServiceError>,
}

/// The steps that remove both artifacts of an upload.
pub open spec fn cleanup_of(root: Seq<char>, dir: Seq<char>, name: Seq<char>) -> Seq<StepView> {
    match upload_paths_of(root, dir, name) {
        Ok((_, t, p)) => seq![StepView::RemoveIfExists(t), StepView::RemoveIfExists(p)],
        Err(_) => Seq::empty(),
    }
}

/// `r` is the plan for one call of the upload: a chunk that would end past the
/// declared size is rejected and both artifacts are cleaned up; any other
/// error comes back as is; otherwise the steps are those of the call, with
/// the cleanup of both artifacts should one fail (nothing to clean after an
/// abort).
pub open spec fn plan_matches(
    root: Seq<char>,
    canonical_dir: Option<Seq<char>>,
    req: UploadFileChunkRequest,
    r: Result<UploadPlan, ServiceError>,
) -> bool {
    match upload_steps_of(root, canonical_dir, req) {
        Err(e) => if e == ServiceError::ChunkOutOfBounds {
            r matches Ok(plan) && plan.rejected == Some(e) && plan.steps@.len() == 0 && steps_view(
                plan.cleanup@,
            ) == cleanup_of(root, canonical_dir.unwrap(), req.file_name@)
        } else {
            r == Err::<UploadPlan, ServiceError>(e)
        },
        Ok(steps) => r matches Ok(plan) && plan.rejected is None && steps_view(plan.steps@) == steps
            && steps_view(plan.cleanup@) == if req.abort {
            Seq::empty()
        } else {
            cleanup_of(root, canonical_dir.unwrap(), req.file_name@)
        },
    }
}

/// Plans one call of the chunked upload. No state is kept between calls: the
/// target and the temporary file on disk are the upload's whole state. When a
/// write fails, or a chunk does not fit the declared size, both are removed.
pub fn plan_upload(root: &str, canonical_dir: Option<&str>, req: UploadFileChunkRequest) -> (r:
    Result<UploadPlan, ServiceError>)
    ensures
        plan_matches(
            root@,
            match canonical_dir {
                None => None,
                Some(d) => Some(d@),
            },
            req,
            r,
        ),
{
    let dir = match canonical_dir {
        None => return Err(ServiceError::Unresolved),
        Some(d) => d,
    };
    let (_full, target, temp) = match get_upload_path_names(root, dir, req.file_name.as_str()) {
        Ok(names) => names,
        Err(e) => return Err(e),
    };
    let ghost t = target@;
    let ghost p = temp@;
    let ghost data = req.chunk_data@;
    let ghost spec_req = req;
    let mut steps: Vec<FsStep> = Vec::new();
    let mut cleanup: Vec<FsStep> = Vec::new();
    if req.abort {
        steps.push(FsStep::RemoveIfExists { path: target });
        steps.push(FsStep::RemoveIfExists { path: temp });
        assert(steps_view(steps@) =~= seq![StepView::RemoveIfExists(t), StepView::RemoveIfExists(p)]);
        assert(steps_view(cleanup@) =~= Seq::<StepView>::empty());
        return Ok(UploadPlan { steps, cleanup, rejected: None });
    }
    if req.chunk_id >= req.chunk_count {
        return Err(ServiceError::InvalidChunk);
    }
    let len = req.chunk_data.len() as u64;
    cleanup.push(FsStep::RemoveIfExists { path: target.clone() });
    cleanup.push(FsStep::RemoveIfExists { path: temp.clone() });
    assert(steps_view(cleanup@) =~= seq![StepView::RemoveIfExists(t), StepView::RemoveIfExists(p)]);
    if req.chunk_id == 0 {
        if len > req.file_size {
            assert(steps_view(steps@) =~= Seq::<StepView>::empty());
            return Ok(UploadPlan { steps, cleanup, rejected: Some(ServiceError::ChunkOutOfBounds) });
        }
        if req.chunk_count == 1 {
            steps.push(FsStep::WriteFile { path: target, data: req.chunk_data });
            assert(steps_view(steps@) =~= seq![StepView::WriteFile(t, data)]);
        } else {
            steps.push(FsStep::WriteFile { path: target, data: Vec::new() });
            steps.push(FsStep::WriteAt { path: temp, data: req.chunk_data, offset: 0, create: true });
            assert(steps_view(steps@) =~= seq![
                StepView::WriteFile(t, Seq::empty()),
                StepView::WriteAt(p, data, 0, true),
            ]);
        }
        return Ok(UploadPlan { steps, cleanup, rejected: None });
    }
    if req.chunk_offset > req.file_size || len > req.file_size - req.chunk_offset {
        assert(steps_view(steps@) =~= Seq::<StepView>::empty());
        return Ok(UploadPlan { steps, cleanup, rejected: Some(ServiceError::ChunkOutOfBounds) });
    }
    let offset = req.chunk_offset;
    if req.chunk_id < req.chunk_count - 1 {
        steps.push(FsStep::WriteAt { path: temp, data: req.chunk_data, offset, create: false });
        assert(steps_view(steps@) =~= seq![StepView::WriteAt(p, data, offset as nat, false)]);
    } else {
        steps.push(
            FsStep::WriteAt { path: temp.clone(), data: req.chunk_data, offset, create: false },
        );
        steps.push(FsStep::RemoveFile { path: target.clone() });
        steps.push(FsStep::Rename { from: temp, to: target });
        assert(steps_view(steps@) =~= seq![
            StepView::WriteAt(p, data, offset as nat, false),
            StepView::RemoveFile(t),
            StepView::Rename(p, t),
        ]);
    }
    Ok(UploadPlan { steps, cleanup, rejected: None })
}

proof fn lemma_write_at_end(a: Seq<u8>, b: Seq<u8>)
    ensures
        write_at(a, b, a.len()) == a + b,
{
    assert(write_at(a, b, a.len()) =~= a + b);
}

proof fn lemma_paths_differ(dir: Seq<char>, name: Seq<char>)
    requires
        valid_name(name),
    ensures
        target_path(dir, name) != temp_path(dir, name),
{
    let n2 = name + uploading_suffix();
    if name.len() > 0 {
        assert(!is_separator(name[0]));
        assert(n2[0] == name[0]);
    }
    assert(joined(dir, name).len() + 10 == joined(dir, n2).len());
}

/// A sole chunk (index 0 of 1) that fits the declared size becomes the
/// target file byte for byte, and leaves no temporary file where none was.
pub proof fn lemma_single_chunk_upload(
    fs: Map<Seq<char>, Seq<u8>>,
    root: Seq<char>,
    dir: Seq<char>,
    req: UploadFileChunkRequest,
)
    requires
        within_root(root, dir),
        valid_name(req.file_name@),
        !req.abort,
        req.chunk_id == 0,
        req.chunk_count == 1,
        req.chunk_data@.len() <= req.file_size,
        !fs.contains_key(temp_path(dir, req.file_name@)),
    ensures
        upload_steps_of(root, Some(dir), req) matches Ok(steps) && run_steps(fs, steps) matches Some(
            after,
        ) && after.contains_key(target_path(dir, req.file_name@)) && after[target_path(
            dir,
            req.file_name@,
        )] == req.chunk_data@ && !after.contains_key(temp_path(dir, req.file_name@)),
{
    let t = target_path(dir, req.file_name@);
    let p = temp_path(dir, req.file_name@);
    lemma_paths_differ(dir, req.file_name@);
    let steps = seq![StepView::WriteFile(t, req.chunk_data@)];
    assert(upload_steps_of(root, Some(dir), req) == Ok::<Seq<StepView>, ServiceError>(steps));
    let f1 = fs.insert(t, req.chunk_data@);
    assert(apply_step(fs, steps[0]) == Some(f1));
    assert(steps.drop_first() =~= Seq::<StepView>::empty());
    assert(run_steps(f1, steps.drop_first()) == Some(f1));
}

/// Three chunks sent in order, each at the offset where the previous ones
/// end, leave the target holding their concatenation and no temporary file.
pub proof fn lemma_three_chunk_upload(
    fs: Map<Seq<char>, Seq<u8>>,
    root: Seq<char>,
    dir: Seq<char>,
    r0: UploadFileChunkRequest,
    r1: UploadFileChunkRequest,
    r2: UploadFileChunkRequest,
)
    requires
        within_root(root, dir),
        valid_name(r0.file_name@),
        r1.file_name@ == r0.file_name@,
        r2.file_name@ == r0.file_name@,
        !r0.abort && !r1.abort && !r2.abort,
        r0.chunk_id == 0 && r1.chunk_id == 1 && r2.chunk_id == 2,
        r0.chunk_count == 3 && r1.chunk_count == 3 && r2.chunk_count == 3,
        r1.chunk_offset == r0.chunk_data@.len(),
        r2.chunk_offset == r0.chunk_data@.len() + r1.chunk_data@.len(),
        r0.chunk_data@.len() + r1.chunk_data@.len() + r2.chunk_data@.len() <= r0.file_size,
        r1.file_size == r0.file_size && r2.file_size == r0.file_size,
    ensures
        upload_steps_of(root, Some(dir), r0) matches Ok(s0) && upload_steps_of(root, Some(dir), r1)
            matches Ok(s1) && upload_steps_of(root, Some(dir), r2) matches Ok(s2) && run_steps(
            fs,
            s0,
        ) matches Some(f1) && run_steps(f1, s1) matches Some(f2) && run_steps(f2, s2) matches Some(
            f3,
        ) && f3.contains_key(target_path(dir, r0.file_name@)) && f3[target_path(
            dir,
            r0.file_name@,
        )] == r0.chunk_data@ + r1.chunk_data@ + r2.chunk_data@ && !f3.contains_key(
            temp_path(dir, r0.file_name@),
        ),
{
    let t = target_path(dir, r0.file_name@);
    let p = temp_path(dir, r0.file_name@);
    let c0 = r0.chunk_data@;
    let c1 = r1.chunk_data@;
    let c2 = r2.chunk_data@;
    lemma_paths_differ(dir, r0.file_name@);
    let s0 = seq![StepView::WriteFile(t, Seq::empty()), StepView::WriteAt(p, c0, 0, true)];
    let s1 = seq![StepView::WriteAt(p, c1, r1.chunk_offset as nat, false)];
    let s2 = seq![
        StepView::WriteAt(p, c2, r2.chunk_offset as nat, false),
        StepView::RemoveFile(t),
        StepView::Rename(p, t),
    ];
    assert(upload_steps_of(root, Some(dir), r0) == Ok::<Seq<StepView>, ServiceError>(s0));
    assert(upload_steps_of(root, Some(dir), r1) == Ok::<Seq<StepView>, ServiceError>(s1));
    assert(upload_steps_of(root, Some(dir), r2) == Ok::<Seq<StepView>, ServiceError>(s2));
    // first call
    let a = fs.insert(t, Seq::empty());
    assert(write_at(Seq::empty(), c0, 0) =~= c0);
    let f1 = a.insert(p, c0);
    assert(apply_step(fs, s0[0]) == Some(a));
    assert(apply_step(a, s0[1]) == Some(f1));
    assert(s0.drop_first().drop_first() =~= Seq::<StepView>::empty());
    assert(run_steps(f1, s0.drop_first().drop_first()) == Some(f1));
    assert(s0.drop_first()[0] == s0[1]);
    assert(run_steps(a, s0.drop_first()) == Some(f1));
    assert(run_steps(fs, s0) == Some(f1));
    // second call
    lemma_write_at_end(c0, c1);
    let f2 = f1.insert(p, c0 + c1);
    assert(apply_step(f1, s1[0]) == Some(f2));
    assert(s1.drop_first() =~= Seq::<StepView>::empty());
    assert(run_steps(f2, s1.drop_first()) == Some(f2));
    assert(run_steps(f1, s1) == Some(f2));
    // third call
    lemma_write_at_end(c0 + c1, c2);
    let b = f2.insert(p, c0 + c1 + c2);
    assert(apply_step(f2, s2[0]) == Some(b));
    assert(b.contains_key(t));
    let c = b.remove(t);
    assert(s2.drop_first()[0] == s2[1]);
    assert(apply_step(b, s2.drop_first()[0]) == Some(c));
    assert(c.contains_key(p));
    let f3 = c.remove(p).insert(t, c[p]);
    let rest = s2.drop_first().drop_first();
    assert(rest[0] == s2[2]);
    assert(apply_step(c, rest[0]) == Some(f3));
    assert(rest.drop_first() =~= Seq::<StepView>::empty());
    assert(run_steps(f3, rest.drop_first()) == Some(f3));
    assert(run_steps(c, rest) == Some(f3));
    assert(run_steps(b, s2.drop_first()) == Some(f3));
    assert(run_steps(f2, s2) == Some(f3));
    assert(f3[t] == c0 + c1 + c2);
    assert(!f3.contains_key(p));
}

/// An abort removes the target and the temporary file where they exist, and
/// touches nothing else; it succeeds whether an upload was in progress or not.
pub proof fn lemma_abort_upload(
    fs: Map<Seq<char>, Seq<u8>>,
    root: Seq<char>,
    dir: Seq<char>,
    req: UploadFileChunkRequest,
)
    requires
        within_root(root, dir),
        valid_name(req.file_name@),
        req.abort,
    ensures
        upload_steps_of(root, Some(dir), req) matches Ok(steps) && run_steps(fs, steps) == Some(
            fs.remove(target_path(dir, req.file_name@)).remove(temp_path(dir, req.file_name@)),
        ),
        !fs.remove(target_path(dir, req.file_name@)).remove(
            temp_path(dir, req.file_name@),
        ).contains_key(target_path(dir, req.file_name@)),
        !fs.remove(target_path(dir, req.file_name@)).remove(
            temp_path(dir, req.file_name@),
        ).contains_key(temp_path(dir, req.file_name@)),
{
    let t = target_path(dir, req.file_name@);
    let p = temp_path(dir, req.file_name@);
    let steps = seq![StepView::RemoveIfExists(t), StepView::RemoveIfExists(p)];
    assert(upload_steps_of(root, Some(dir), req) == Ok::<Seq<StepView>, ServiceError>(steps));
    lemma_cleanup_removes_artifacts(fs, t, p);
}

/// The steps that clean up after a failed write remove the target and the
/// temporary file where they exist, and touch nothing else.
pub proof fn lemma_cleanup_removes_artifacts(fs: Map<Seq<char>, Seq<u8>>, t: Seq<char>, p: Seq<char>)
    ensures
        run_steps(fs, seq![StepView::RemoveIfExists(t), StepView::RemoveIfExists(p)]) == Some(
            fs.remove(t).remove(p),
        ),
        !fs.remove(t).remove(p).contains_key(t),
        !fs.remove(t).remove(p).contains_key(p),
{
    let steps = seq![StepView::RemoveIfExists(t), StepView::RemoveIfExists(p)];
    let a = fs.remove(t);
    let b = a.remove(p);
    assert(apply_step(fs, steps[0]) == Some(a));
    assert(steps.drop_first()[0] == steps[1]);
    assert(apply_step(a, steps.drop_first()[0]) == Some(b));
    assert(steps.drop_first().drop_first() =~= Seq::<StepView>::empty());
    assert(run_steps(b, steps.drop_first().drop_first()) == Some(b));
    assert(run_steps(a, steps.drop_first()) == Some(b));
}

/// After the first chunk of an upload in several chunks, the target is an
/// empty placeholder and the temporary file holds exactly that chunk.
pub proof fn lemma_first_chunk_placeholder(
    fs: Map<Seq<char>, Seq<u8>>,
    root: Seq<char>,
    dir: Seq<char>,
    req: UploadFileChunkRequest,
)
    requires
        within_root(root, dir),
        valid_name(req.file_name@),
        !req.abort,
        req.chunk_id == 0,
        req.chunk_count > 1,
        req.chunk_data@.len() <= req.file_size,
    ensures
        upload_steps_of(root, Some(dir), req) matches Ok(steps) && run_steps(fs, steps) matches Some(
            after,
        ) && after.contains_key(target_path(dir, req.file_name@)) && after[target_path(
            dir,
            req.file_name@,
        )].len() == 0 && after.contains_key(temp_path(dir, req.file_name@)) && after[temp_path(
            dir,
            req.file_name@,
        )] == req.chunk_data@,
{
    let t = target_path(dir, req.file_name@);
    let p = temp_path(dir, req.file_name@);
    let c0 = req.chunk_data@;
    lemma_paths_differ(dir, req.file_name@);
    let s0 = seq![StepView::WriteFile(t, Seq::empty()), StepView::WriteAt(p, c0, 0, true)];
    assert(upload_steps_of(root, Some(dir), req) == Ok::<Seq<StepView>, ServiceError>(s0));
    let a = fs.insert(t, Seq::empty());
    assert(write_at(Seq::empty(), c0, 0) =~= c0);
    let f1 = a.insert(p, c0);
    assert(apply_step(fs, s0[0]) == Some(a));
    assert(s0.drop_first()[0] == s0[1]);
    assert(apply_step(a, s0.drop_first()[0]) == Some(f1));
    assert(s0.drop_first().drop_first() =~= Seq::<StepView>::empty());
    assert(run_steps(f1, s0.drop_first().drop_first()) == Some(f1));
    assert(run_steps(a, s0.drop_first()) == Some(f1));
}

} // verus!
