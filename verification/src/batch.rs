//! A batch: every supported audio file under a directory, found
//! recursively, compressed in path order into bundles that keep the
//! directory structure.
use vstd::prelude::*;
use vstd::string::StringExecFns;

use crate::compress::{
    audio_path, awaits, compress_next, lemma_compress_step, stage_wf, CompressJob, CompressJobView, CompressProgress, CompressProgressView,
    CompressStage, StageView,
};
use crate::io::{
    reply_kind_for, reply_kind_of, view_entries, DirEntryInfo, DirEntryView, DirListing,
    IoReply, IoReplyView, IoRequest, IoRequestView, ReplyKind,
};
use crate::text::{message, message3};
use crate::order::{
    is_path_sorted, lemma_sort_members, lemma_sort_permutes, lemma_sort_sorted, path_less,
    sort_by_path, sort_paths,
};
use crate::path::{
    bundle_dir_for_input, bundle_dir_path, is_supported_audio_file, is_supported_audio_path,
    relative_path_error,
};
use crate::types::{
    view_items, view_opt, view_strings, BatchCompressResult, BatchItemResult, BatchItemView, BatchResultView,
    CompressRequest, CompressRequestView,
};

verus! {

/// A directory being walked: its entries and how far the walk has come.
pub struct DirFrame {
    pub dir: String,
    pub entries: Vec<DirEntryInfo>,
    pub next: usize,
    pub error: Option<String>,
}

pub struct FrameView {
    pub dir: Seq<char>,
    pub entries: Seq<DirEntryView>,
    pub next: nat,
    pub error: Option<Seq<char>>,
}

impl View for DirFrame {
    type V = FrameView;

    open spec fn view(&self) -> FrameView {
        FrameView {
            dir: self.dir@,
            entries: view_entries(self.entries@),
            next: self.next as nat,
            error: view_opt(self.error),
        }
    }
}

pub open spec fn view_frames(s: Seq<DirFrame>) -> Seq<FrameView> {
    s.map_values(|f: DirFrame| f@)
}

/// One move of the walk, the innermost directory being the last frame.
pub enum CollectStep {
    Continue(Seq<FrameView>, Seq<Seq<char>>),
    NeedList(Seq<FrameView>, Seq<Seq<char>>, Seq<char>),
    Fail(Seq<char>),
    Complete(Seq<Seq<char>>),
}

/// The next entry of the innermost directory: a directory is walked next,
/// a supported audio file is kept; at the end of a directory, the error
/// that cut its listing short ends the walk.
pub open spec fn collect_step(stack: Seq<FrameView>, found: Seq<Seq<char>>) -> CollectStep {
    if stack.len() == 0 {
        CollectStep::Complete(found)
    } else {
        let f = stack.last();
        if f.next < f.entries.len() {
            let e = f.entries[f.next as int];
            let s2 = stack.update(stack.len() - 1, FrameView { next: f.next + 1, ..f });
            if e.is_dir {
                CollectStep::NeedList(s2, found, e.path)
            } else if e.is_file && is_supported_audio_path(e.path) {
                CollectStep::Continue(s2, found.push(e.path))
            } else {
                CollectStep::Continue(s2, found)
            }
        } else {
            match f.error {
                Some(m) => CollectStep::Fail("failed to read dir entry: "@ + m),
                None => CollectStep::Continue(stack.drop_last(), found),
            }
        }
    }
}

/// What is left of the walk, as a measure.
pub open spec fn remaining(stack: Seq<FrameView>) -> nat
    decreases stack.len(),
{
    if stack.len() == 0 {
        0
    } else {
        let f = stack.last();
        remaining(stack.drop_last()) + (if f.next <= f.entries.len() {
            (f.entries.len() - f.next) as nat
        } else {
            0
        }) + 1
    }
}

pub proof fn lemma_collect_step_decreases(stack: Seq<FrameView>, found: Seq<Seq<char>>)
    ensures
        collect_step(stack, found) matches CollectStep::Continue(s2, _) ==> remaining(s2) < remaining(
            stack,
        ),
{
    if stack.len() > 0 {
        let f = stack.last();
        if f.next < f.entries.len() {
            let s2 = stack.update(stack.len() - 1, FrameView { next: f.next + 1, ..f });
            assert(s2.drop_last() =~= stack.drop_last());
        }
    }
}

/// The walk, up to the next directory to list, its failure or its end.
pub open spec fn collect_run(stack: Seq<FrameView>, found: Seq<Seq<char>>) -> CollectStep
    decreases remaining(stack),
{
    match collect_step(stack, found) {
        CollectStep::Continue(s2, f2) => {
            proof {
                lemma_collect_step_decreases(stack, found);
            }
            collect_run(s2, f2)
        },
        other => other,
    }
}

/// Where a batch stands.
pub enum BatchStage {
    RootExists,
    RootIsDir,
    OutExists,
    RemovingOut,
    CreatingOut,
    Collecting { stack: Vec<DirFrame>, found: Vec<String>, listing: String },
    Compressing {
        inputs: Vec<String>,
        index: usize,
        items: Vec<BatchItemResult>,
        job: CompressJob,
    },
}

pub enum BatchStageView {
    RootExists,
    RootIsDir,
    OutExists,
    RemovingOut,
    CreatingOut,
    Collecting { stack: Seq<FrameView>, found: Seq<Seq<char>>, listing: Seq<char> },
    Compressing {
        inputs: Seq<Seq<char>>,
        index: nat,
        items: Seq<BatchItemView>,
        job: CompressJobView,
    },
}

impl View for BatchStage {
    type V = BatchStageView;

    open spec fn view(&self) -> BatchStageView {
        match self {
            BatchStage::RootExists => BatchStageView::RootExists,
            BatchStage::RootIsDir => BatchStageView::RootIsDir,
            BatchStage::OutExists => BatchStageView::OutExists,
            BatchStage::RemovingOut => BatchStageView::RemovingOut,
            BatchStage::CreatingOut => BatchStageView::CreatingOut,
            BatchStage::Collecting { stack, found, listing } => BatchStageView::Collecting {
                stack: view_frames(stack@),
                found: view_strings(found@),
                listing: listing@,
            },
            BatchStage::Compressing { inputs, index, items, job } => BatchStageView::Compressing {
                inputs: view_strings(inputs@),
                index: *index as nat,
                items: view_items(items@),
                job: job@,
            },
        }
    }
}

/// A batch under way.
pub struct BatchJob {
    pub input_root: String,
    pub output_root: String,
    pub stage: BatchStage,
}

pub struct BatchJobView {
    pub input_root: Seq<char>,
    pub output_root: Seq<char>,
    pub stage: BatchStageView,
}

impl View for BatchJob {
    type V = BatchJobView;

    open spec fn view(&self) -> BatchJobView {
        BatchJobView {
            input_root: self.input_root@,
            output_root: self.output_root@,
            stage: self.stage@,
        }
    }
}

/// What a batch does next: more outside work, or it is over.
pub enum BatchProgress {
    Next(BatchJob, IoRequest),
    Done(Result<BatchCompressResult, String>),
}

pub enum BatchProgressView {
    Next(BatchJobView, IoRequestView),
    Done(Result<BatchResultView, Seq<char>>),
}

impl View for BatchProgress {
    type V = BatchProgressView;

    open spec fn view(&self) -> BatchProgressView {
        match self {
            BatchProgress::Next(j, r) => BatchProgressView::Next(j@, r@),
            BatchProgress::Done(Ok(r)) => BatchProgressView::Done(Ok(r@)),
            BatchProgress::Done(Err(e)) => BatchProgressView::Done(Err(e@)),
        }
    }
}

/// The kind of reply a batch waits for.
pub open spec fn batch_awaits(stage: BatchStageView) -> ReplyKind {
    match stage {
        BatchStageView::RootExists => ReplyKind::Answer,
        BatchStageView::RootIsDir => ReplyKind::Answer,
        BatchStageView::OutExists => ReplyKind::Answer,
        BatchStageView::RemovingOut => ReplyKind::Completed,
        BatchStageView::CreatingOut => ReplyKind::Completed,
        BatchStageView::Collecting { .. } => ReplyKind::Listed,
        BatchStageView::Compressing { job, .. } => awaits(job.stage),
    }
}

pub open spec fn batch_go(
    root: Seq<char>,
    out: Seq<char>,
    stage: BatchStageView,
    io: IoRequestView,
) -> BatchProgressView {
    BatchProgressView::Next(BatchJobView { input_root: root, output_root: out, stage }, io)
}

pub open spec fn batch_fail(message: Seq<char>) -> BatchProgressView {
    BatchProgressView::Done(Err(message))
}

/// Starts the compression of `inputs[index]`, or ends the batch when all
/// inputs are done.
pub open spec fn start_item(
    root: Seq<char>,
    out: Seq<char>,
    inputs: Seq<Seq<char>>,
    index: nat,
    items: Seq<BatchItemView>,
) -> BatchProgressView {
    if index >= inputs.len() {
        BatchProgressView::Done(
            Ok(BatchResultView { output_root: out, item_count: items.len(), items }),
        )
    } else {
        match bundle_dir_path(root, inputs[index as int], out) {
            None => batch_fail(relative_path_error(root, inputs[index as int])),
            Some(dir) => batch_go(
                root,
                out,
                BatchStageView::Compressing {
                    inputs,
                    index,
                    items,
                    job: CompressJobView {
                        request: CompressRequestView { input: inputs[index as int], output_dir: dir },
                        stage: StageView::InputExists,
                    },
                },
                IoRequestView::PathExists(inputs[index as int]),
            ),
        }
    }
}

/// After the walk moved on: list the next directory, fail, or sort what
/// was found and start compressing.
pub open spec fn after_collect(root: Seq<char>, out: Seq<char>, c: CollectStep) -> BatchProgressView {
    match c {
        CollectStep::NeedList(stack, found, dir) => batch_go(
            root,
            out,
            BatchStageView::Collecting { stack, found, listing: dir },
            IoRequestView::ListDir(dir),
        ),
        CollectStep::Fail(m) => batch_fail(m),
        CollectStep::Complete(found) => start_item(root, out, sort_paths(found), 0, seq![]),
        CollectStep::Continue(_, _) => batch_fail(seq![]),
    }
}

/// The next step of a batch, given the reply to its last request.
pub open spec fn batch_next(job: BatchJobView, reply: IoReplyView) -> BatchProgressView {
    let root = job.input_root;
    let out = job.output_root;
    match job.stage {
        BatchStageView::RootExists => match reply {
            IoReplyView::Answer(true) => batch_go(root, out, BatchStageView::RootIsDir, IoRequestView::PathIsDir(root)),
            _ => batch_fail("input root does not exist: "@ + root),
        },
        BatchStageView::RootIsDir => match reply {
            IoReplyView::Answer(true) => batch_go(root, out, BatchStageView::OutExists, IoRequestView::PathExists(out)),
            _ => batch_fail("input root is not a directory: "@ + root),
        },
        BatchStageView::OutExists => match reply {
            IoReplyView::Answer(true) => batch_go(root, out, BatchStageView::RemovingOut, IoRequestView::RemoveDirAll(out)),
            _ => batch_go(root, out, BatchStageView::CreatingOut, IoRequestView::CreateDirAll(out)),
        },
        BatchStageView::RemovingOut => match reply {
            IoReplyView::Completed(Err(m)) => batch_fail("failed to remove "@ + out + ": "@ + m),
            _ => batch_go(root, out, BatchStageView::CreatingOut, IoRequestView::CreateDirAll(out)),
        },
        BatchStageView::CreatingOut => match reply {
            IoReplyView::Completed(Err(m)) => batch_fail("failed to create "@ + out + ": "@ + m),
            _ => batch_go(
                root,
                out,
                BatchStageView::Collecting { stack: seq![], found: seq![], listing: root },
                IoRequestView::ListDir(root),
            ),
        },
        BatchStageView::Collecting { stack, found, listing } => match reply {
            IoReplyView::Listed(Err(m)) => batch_fail("failed to read "@ + listing + ": "@ + m),
            IoReplyView::Listed(Ok(l)) => after_collect(
                root,
                out,
                collect_run(
                    stack.push(FrameView { dir: listing, entries: l.entries, next: 0, error: l.error }),
                    found,
                ),
            ),
            _ => batch_fail(seq![]),
        },
        BatchStageView::Compressing { inputs, index, items, job } => match compress_next(job, reply) {
            CompressProgressView::Next(j, io) => batch_go(
                root,
                out,
                BatchStageView::Compressing { inputs, index, items, job: j },
                io,
            ),
            CompressProgressView::Done(Err(e)) => batch_fail(e),
            CompressProgressView::Done(Ok(res)) => start_item(
                root,
                out,
                inputs,
                index + 1,
                items.push(
                    BatchItemView {
                        input: job.request.input,
                        bundle_dir: res.bundle_dir,
                        audio_path: res.audio_path,
                    },
                ),
            ),
        },
    }
}

/// The walk as the program runs it.
pub enum CollectOutcome {
    NeedList(Vec<DirFrame>, Vec<String>, String),
    Fail(String),
    Complete(Vec<String>),
}

pub open spec fn collect_outcome_view(c: CollectOutcome) -> CollectStep {
    match c {
        CollectOutcome::NeedList(s, f, d) => CollectStep::NeedList(view_frames(s@), view_strings(f@), d@),
        CollectOutcome::Fail(m) => CollectStep::Fail(m@),
        CollectOutcome::Complete(f) => CollectStep::Complete(view_strings(f@)),
    }
}

fn run_collect(start: Vec<DirFrame>, found_before: Vec<String>) -> (r: CollectOutcome)
    ensures
        collect_outcome_view(r) == collect_run(view_frames(start@), view_strings(found_before@)),
{
    let ghost target = collect_run(view_frames(start@), view_strings(found_before@));
    let mut stack = start;
    let mut found = found_before;
    loop
        invariant
            collect_run(view_frames(stack@), view_strings(found@)) == target,
            target == collect_run(view_frames(start@), view_strings(found_before@)),
        decreases remaining(view_frames(stack@)),
    {
        let ghost vs = view_frames(stack@);
        let ghost vf = view_strings(found@);
        proof {
            lemma_collect_step_decreases(vs, vf);
        }
        if stack.len() == 0 {
            assert(collect_run(vs, vf) == CollectStep::Complete(vf));
            return CollectOutcome::Complete(found);
        }
        let ghost top = vs.last();
        let mut f = stack.pop().unwrap();
        assert(f@ == top);
        assert(view_frames(stack@) =~= vs.drop_last());
        if f.next < f.entries.len() {
            let path = f.entries[f.next].path.clone();
            let is_dir = f.entries[f.next].is_dir;
            let is_file = f.entries[f.next].is_file;
            assert(top.entries[top.next as int] == f.entries@[f.next as int]@);
            f.next = f.next + 1;
            stack.push(f);
            assert(view_frames(stack@) =~= vs.update(vs.len() - 1, FrameView { next: top.next + 1, ..top }));
            if is_dir {
                assert(collect_run(vs, vf) == CollectStep::NeedList(view_frames(stack@), vf, path@));
                return CollectOutcome::NeedList(stack, found, path);
            } else if is_file && is_supported_audio_file(path.as_str()) {
                found.push(path);
                assert(view_strings(found@) =~= vf.push(path@));
                assert(collect_run(vs, vf) == collect_run(view_frames(stack@), view_strings(found@)));
            } else {
                assert(collect_run(vs, vf) == collect_run(view_frames(stack@), view_strings(found@)));
            }
        } else {
            match f.error {
                Some(m) => {
                    let mut msg = String::from_str("failed to read dir entry: ");
                    msg.append(m.as_str());
                    assert(collect_run(vs, vf) == CollectStep::Fail(msg@));
                    return CollectOutcome::Fail(msg);
                },
                None => {
                    assert(collect_run(vs, vf) == collect_run(view_frames(stack@), vf));
                },
            }
        }
    }
}

/// Starts the compression of `inputs[index]`, or ends the batch.
fn start_item_exec(
    input_root: String,
    output_root: String,
    inputs: Vec<String>,
    index: usize,
    items: Vec<BatchItemResult>,
) -> (r: BatchProgress)
    requires
        index <= inputs.len(),
    ensures
        r@ == start_item(input_root@, output_root@, view_strings(inputs@), index as nat, view_items(items@)),
{
    if index >= inputs.len() {
        let n = items.len();
        return BatchProgress::Done(Ok(BatchCompressResult { output_root, item_count: n, items }));
    }
    let input = inputs[index].clone();
    match bundle_dir_for_input(input_root.as_str(), input.as_str(), output_root.as_str()) {
        Err(e) => BatchProgress::Done(Err(e)),
        Ok(dir) => {
            let first = input.clone();
            let job = CompressJob {
                request: CompressRequest { input, output_dir: dir },
                stage: CompressStage::InputExists,
            };
            BatchProgress::Next(
                BatchJob {
                    input_root,
                    output_root,
                    stage: BatchStage::Compressing { inputs, index, items, job },
                },
                IoRequest::PathExists(first),
            )
        },
    }
}

impl BatchJob {
    /// Begins a batch from `input_root` into `output_root`.
    pub fn start(input_root: &str, output_root: &str) -> (r: (BatchJob, IoRequest))
        ensures
            r.0@ == (BatchJobView {
                input_root: input_root@,
                output_root: output_root@,
                stage: BatchStageView::RootExists,
            }),
            r.1@ == IoRequestView::PathExists(input_root@),
            batch_awaits(r.0@.stage) == reply_kind_for(r.1@),
    {
        (
            BatchJob {
                input_root: input_root.to_owned(),
                output_root: output_root.to_owned(),
                stage: BatchStage::RootExists,
            },
            IoRequest::PathExists(input_root.to_owned()),
        )
    }

    /// The kind of reply the batch waits for.
    pub fn awaited(&self) -> (k: ReplyKind)
        ensures
            k == batch_awaits(self@.stage),
    {
        match &self.stage {
            BatchStage::RootExists => ReplyKind::Answer,
            BatchStage::RootIsDir => ReplyKind::Answer,
            BatchStage::OutExists => ReplyKind::Answer,
            BatchStage::RemovingOut => ReplyKind::Completed,
            BatchStage::CreatingOut => ReplyKind::Completed,
            BatchStage::Collecting { .. } => ReplyKind::Listed,
            BatchStage::Compressing { job, .. } => job.awaited(),
        }
    }

    /// Takes the reply to the last request and decides what comes next.
    pub fn step(self, reply: IoReply) -> (r: BatchProgress)
        requires
            reply_kind_of(reply@) == batch_awaits(self@.stage),
        ensures
            r@ == batch_next(self@, reply@),
    {
        let BatchJob { input_root, output_root, stage } = self;
        match stage {
            BatchStage::RootExists => {
                if let IoReply::Answer(true) = reply {
                    let r = input_root.clone();
                    BatchProgress::Next(
                        BatchJob { input_root, output_root, stage: BatchStage::RootIsDir },
                        IoRequest::PathIsDir(r),
                    )
                } else {
                    BatchProgress::Done(Err(message("input root does not exist: ", input_root.as_str())))
                }
            },
            BatchStage::RootIsDir => {
                if let IoReply::Answer(true) = reply {
                    let o = output_root.clone();
                    BatchProgress::Next(
                        BatchJob { input_root, output_root, stage: BatchStage::OutExists },
                        IoRequest::PathExists(o),
                    )
                } else {
                    BatchProgress::Done(
                        Err(message("input root is not a directory: ", input_root.as_str())),
                    )
                }
            },
            BatchStage::OutExists => {
                let o = output_root.clone();
                if let IoReply::Answer(true) = reply {
                    BatchProgress::Next(
                        BatchJob { input_root, output_root, stage: BatchStage::RemovingOut },
                        IoRequest::RemoveDirAll(o),
                    )
                } else {
                    BatchProgress::Next(
                        BatchJob { input_root, output_root, stage: BatchStage::CreatingOut },
                        IoRequest::CreateDirAll(o),
                    )
                }
            },
            BatchStage::RemovingOut => {
                match reply {
                    IoReply::Completed(Err(m)) => BatchProgress::Done(
                        Err(message3("failed to remove ", output_root.as_str(), ": ", m.as_str())),
                    ),
                    _ => {
                        let o = output_root.clone();
                        BatchProgress::Next(
                            BatchJob { input_root, output_root, stage: BatchStage::CreatingOut },
                            IoRequest::CreateDirAll(o),
                        )
                    },
                }
            },
            BatchStage::CreatingOut => {
                match reply {
                    IoReply::Completed(Err(m)) => BatchProgress::Done(
                        Err(message3("failed to create ", output_root.as_str(), ": ", m.as_str())),
                    ),
                    _ => {
                        let r = input_root.clone();
                        let l = input_root.clone();
                        let stack: Vec<DirFrame> = Vec::new();
                        let found: Vec<String> = Vec::new();
                        proof {
                            assert(view_frames(stack@) =~= Seq::<FrameView>::empty());
                            assert(view_strings(found@) =~= Seq::<Seq<char>>::empty());
                        }
                        BatchProgress::Next(
                            BatchJob {
                                input_root,
                                output_root,
                                stage: BatchStage::Collecting { stack, found, listing: l },
                            },
                            IoRequest::ListDir(r),
                        )
                    },
                }
            },
            BatchStage::Collecting { stack, found, listing } => {
                match reply {
                    IoReply::Listed(Err(m)) => BatchProgress::Done(
                        Err(message3("failed to read ", listing.as_str(), ": ", m.as_str())),
                    ),
                    IoReply::Listed(Ok(l)) => {
                        let DirListing { entries, error } = l;
                        let mut stack = stack;
                        let ghost before = view_frames(stack@);
                        let frame = DirFrame { dir: listing, entries, next: 0, error };
                        stack.push(frame);
                        proof {
                            assert(view_frames(stack@) =~= before.push(frame@));
                        }
                        match run_collect(stack, found) {
                            CollectOutcome::NeedList(s, f, d) => {
                                let d2 = d.clone();
                                BatchProgress::Next(
                                    BatchJob {
                                        input_root,
                                        output_root,
                                        stage: BatchStage::Collecting { stack: s, found: f, listing: d },
                                    },
                                    IoRequest::ListDir(d2),
                                )
                            },
                            CollectOutcome::Fail(m) => BatchProgress::Done(Err(m)),
                            CollectOutcome::Complete(f) => {
                                let sorted = sort_by_path(f);
                                let items: Vec<BatchItemResult> = Vec::new();
                                proof {
                                    assert(view_items(items@) =~= Seq::<BatchItemView>::empty());
                                }
                                start_item_exec(input_root, output_root, sorted, 0, items)
                            },
                        }
                    },
                    _ => {
                        proof {
                            assert(false);
                        }
                        BatchProgress::Done(Err(String::new()))
                    },
                }
            },
            BatchStage::Compressing { inputs, index, items, job } => {
                let input = job.request.input.clone();
                match job.step(reply) {
                    CompressProgress::Next(j, io) => BatchProgress::Next(
                        BatchJob {
                            input_root,
                            output_root,
                            stage: BatchStage::Compressing { inputs, index, items, job: j },
                        },
                        io,
                    ),
                    CompressProgress::Done(Err(e)) => BatchProgress::Done(Err(e)),
                    CompressProgress::Done(Ok(res)) => {
                        let mut items = items;
                        let ghost before = view_items(items@);
                        let item = BatchItemResult {
                            input,
                            bundle_dir: res.bundle_dir,
                            audio_path: res.audio_path,
                        };
                        items.push(item);
                        proof {
                            assert(view_items(items@) =~= before.push(item@));
                        }
                        let next = if index < inputs.len() {
                            index + 1
                        } else {
                            inputs.len()
                        };
                        start_item_exec(input_root, output_root, inputs, next, items)
                    },
                }
            },
        }
    }
}

} // verus!

verus! {

/// All paths name supported audio files.
pub open spec fn all_supported(s: Seq<Seq<char>>) -> bool {
    forall|i: int| 0 <= i < s.len() ==> is_supported_audio_path(#[trigger] s[i])
}

/// The finished items of a batch stand for the first inputs, in order,
/// each in the bundle directory that keeps its place under the input root,
/// with its audio file inside.
pub open spec fn items_match(
    root: Seq<char>,
    out: Seq<char>,
    inputs: Seq<Seq<char>>,
    items: Seq<BatchItemView>,
) -> bool {
    forall|i: int|
        0 <= i < items.len() ==> {
            &&& (#[trigger] items[i]).input == inputs[i]
            &&& bundle_dir_path(root, inputs[i], out) == Some(items[i].bundle_dir)
            &&& items[i].audio_path == audio_path(items[i].bundle_dir)
        }
}

/// What holds of every stage a batch reaches.
pub open spec fn batch_wf(job: BatchJobView) -> bool {
    let root = job.input_root;
    let out = job.output_root;
    match job.stage {
        BatchStageView::Collecting { found, .. } => all_supported(found),
        BatchStageView::Compressing { inputs, index, items, job: cj } => {
            &&& index < inputs.len()
            &&& items.len() == index
            &&& all_supported(inputs)
            &&& is_path_sorted(inputs)
            &&& cj.request.input == inputs[index as int]
            &&& bundle_dir_path(root, inputs[index as int], out) == Some(cj.request.output_dir)
            &&& stage_wf(cj)
            &&& items_match(root, out, inputs, items)
        },
        _ => true,
    }
}

/// The result of a batch: into the output root, one item per compressed
/// file, in path order, each a supported audio file whose bundle keeps its
/// place under the input root and holds its audio file.
pub open spec fn batch_result_wf(root: Seq<char>, out: Seq<char>, r: BatchResultView) -> bool {
    &&& r.output_root == out
    &&& r.item_count == r.items.len()
    &&& forall|i: int, j: int|
        0 <= i < j < r.items.len() ==> !path_less(#[trigger] r.items[j].input, #[trigger] r.items[i].input)
    &&& forall|i: int|
        0 <= i < r.items.len() ==> {
            &&& is_supported_audio_path((#[trigger] r.items[i]).input)
            &&& bundle_dir_path(root, r.items[i].input, out) == Some(r.items[i].bundle_dir)
            &&& r.items[i].audio_path == audio_path(r.items[i].bundle_dir)
        }
}

proof fn lemma_collect_run_supported(stack: Seq<FrameView>, found: Seq<Seq<char>>)
    requires
        all_supported(found),
    ensures
        collect_run(stack, found) matches CollectStep::NeedList(_, f, _) ==> all_supported(f),
        collect_run(stack, found) matches CollectStep::Complete(f) ==> all_supported(f),
        !(collect_run(stack, found) is Continue),
    decreases remaining(stack),
{
    lemma_collect_step_decreases(stack, found);
    match collect_step(stack, found) {
        CollectStep::Continue(s2, f2) => {
            assert(all_supported(f2));
            lemma_collect_run_supported(s2, f2);
        },
        _ => {},
    }
}

proof fn lemma_start_item(
    root: Seq<char>,
    out: Seq<char>,
    inputs: Seq<Seq<char>>,
    index: nat,
    items: Seq<BatchItemView>,
)
    requires
        index <= inputs.len(),
        items.len() == index,
        all_supported(inputs),
        is_path_sorted(inputs),
        items_match(root, out, inputs, items),
    ensures
        start_item(root, out, inputs, index, items) matches BatchProgressView::Next(j, io) ==> {
            &&& batch_wf(j)
            &&& batch_awaits(j.stage) == reply_kind_for(io)
            &&& j.input_root == root
            &&& j.output_root == out
        },
        start_item(root, out, inputs, index, items) matches BatchProgressView::Done(Ok(r)) ==> batch_result_wf(root, out, r),
{
    if index >= inputs.len() {
        let r = BatchResultView { output_root: out, item_count: items.len(), items };
        assert forall|i: int| 0 <= i < r.items.len() implies is_supported_audio_path(
            (#[trigger] r.items[i]).input,
        ) by {
            assert(items[i].input == inputs[i]);
        }
        assert forall|i: int, j: int| 0 <= i < j < r.items.len() implies !path_less(
            #[trigger] r.items[j].input,
            #[trigger] r.items[i].input,
        ) by {
            assert(items[i].input == inputs[i]);
            assert(items[j].input == inputs[j]);
        }
    }
}

/// A batch keeps its roots, always asks next for the kind of reply it will
/// wait for and keeps its stage well formed; a batch that succeeds returns
/// one item per compressed file, counted and in path order, each a
/// supported audio file whose bundle directory keeps its place under the
/// input root and holds its audio file.
pub proof fn lemma_batch_step(job: BatchJobView, reply: IoReplyView)
    requires
        reply_kind_of(reply) == batch_awaits(job.stage),
        batch_wf(job),
    ensures
        batch_next(job, reply) matches BatchProgressView::Next(j, io) ==> {
            &&& batch_wf(j)
            &&& batch_awaits(j.stage) == reply_kind_for(io)
            &&& j.input_root == job.input_root
            &&& j.output_root == job.output_root
        },
        batch_next(job, reply) matches BatchProgressView::Done(Ok(r)) ==> batch_result_wf(
            job.input_root,
            job.output_root,
            r,
        ),
{
    let root = job.input_root;
    let out = job.output_root;
    match job.stage {
        BatchStageView::Collecting { stack, found, listing } => {
            if let IoReplyView::Listed(Ok(l)) = reply {
                let s = stack.push(FrameView { dir: listing, entries: l.entries, next: 0, error: l.error });
                lemma_collect_run_supported(s, found);
                if let CollectStep::Complete(f) = collect_run(s, found) {
                    let sorted = sort_paths(f);
                    lemma_sort_permutes(f);
                    lemma_sort_sorted(f);
                    assert forall|i: int| 0 <= i < sorted.len() implies is_supported_audio_path(
                        #[trigger] sorted[i],
                    ) by {
                        lemma_sort_members(f, i);
                        let k = choose|k: int| 0 <= k < f.len() && f[k] == sorted[i];
                        assert(is_supported_audio_path(f[k]));
                    }
                    lemma_start_item(root, out, sorted, 0, seq![]);
                }
            }
        },
        BatchStageView::Compressing { inputs, index, items, job: cj } => {
            lemma_compress_step(cj, reply);
            if let CompressProgressView::Done(Ok(res)) = compress_next(cj, reply) {
                let item = BatchItemView {
                    input: cj.request.input,
                    bundle_dir: res.bundle_dir,
                    audio_path: res.audio_path,
                };
                let items2 = items.push(item);
                assert(items_match(root, out, inputs, items2)) by {
                    assert forall|i: int| 0 <= i < items2.len() implies {
                        &&& (#[trigger] items2[i]).input == inputs[i]
                        &&& bundle_dir_path(root, inputs[i], out) == Some(items2[i].bundle_dir)
                        &&& items2[i].audio_path == audio_path(items2[i].bundle_dir)
                    } by {
                        if i < items.len() {
                            assert(items2[i] == items[i]);
                        }
                    }
                }
                lemma_start_item(root, out, inputs, index + 1, items2);
            }
        },
        _ => {},
    }
}

/// A batch succeeds only if every compression it starts succeeds: the
/// first compression that fails ends the batch with that compression's
/// error, and a batch that ends well has one item for each input it set
/// out to compress, in order.  A batch whose walk finds nothing ends well
/// with no items.
pub proof fn lemma_batch_all_or_nothing(job: BatchJobView, reply: IoReplyView)
    requires
        reply_kind_of(reply) == batch_awaits(job.stage),
        batch_wf(job),
    ensures
        job.stage matches BatchStageView::Compressing { job: cj, .. } ==> (compress_next(cj, reply)
            matches CompressProgressView::Done(Err(e)) ==> batch_next(job, reply)
            == BatchProgressView::Done(Err(e))),
        job.stage matches BatchStageView::Compressing { inputs, .. } ==> (batch_next(job, reply)
            matches BatchProgressView::Done(Ok(r)) ==> {
            &&& r.item_count == inputs.len()
            &&& r.items.len() == inputs.len()
            &&& forall|i: int| 0 <= i < inputs.len() ==> (#[trigger] r.items[i]).input == inputs[i]
        }),
        job.stage matches BatchStageView::Collecting { stack, found, listing } ==> match reply {
            IoReplyView::Listed(Ok(l)) => (batch_next(job, reply) matches BatchProgressView::Done(Ok(r))
                ==> {
                &&& r.items.len() == 0
                &&& collect_run(
                    stack.push(FrameView { dir: listing, entries: l.entries, next: 0, error: l.error }),
                    found,
                ) matches CollectStep::Complete(f) && f.len() == 0
            }),
            _ => true,
        },
{
    let root = job.input_root;
    let out = job.output_root;
    match job.stage {
        BatchStageView::Collecting { stack, found, listing } => {
            if let IoReplyView::Listed(Ok(l)) = reply {
                let s = stack.push(FrameView { dir: listing, entries: l.entries, next: 0, error: l.error });
                if let CollectStep::Complete(f) = collect_run(s, found) {
                    lemma_sort_permutes(f);
                }
            }
        },
        BatchStageView::Compressing { inputs, index, items, job: cj } => {
            if let CompressProgressView::Done(Ok(res)) = compress_next(cj, reply) {
                let item = BatchItemView {
                    input: cj.request.input,
                    bundle_dir: res.bundle_dir,
                    audio_path: res.audio_path,
                };
                let items2 = items.push(item);
                if index + 1 >= inputs.len() {
                    assert forall|i: int| 0 <= i < inputs.len() implies (#[trigger] items2[i]).input
                        == inputs[i] by {
                        if i < items.len() {
                            assert(items2[i] == items[i]);
                        }
                    }
                }
            }
        },
        _ => {},
    }
}

/// A batch starts well formed.
pub proof fn lemma_batch_start(root: Seq<char>, out: Seq<char>)
    ensures
        batch_wf(BatchJobView { input_root: root, output_root: out, stage: BatchStageView::RootExists }),
{
}

} // verus!

verus! {

/// Starts the batch that compresses every supported audio file under
/// `input_root` into bundles under `output_root`: its first request is
/// whether the input root exists.
pub fn compress_directory_to_dir(input_root: &str, output_root: &str) -> (r: (BatchJob, IoRequest))
    ensures
        r.0@ == (BatchJobView {
            input_root: input_root@,
            output_root: output_root@,
            stage: BatchStageView::RootExists,
        }),
        r.1@ == IoRequestView::PathExists(input_root@),
        batch_awaits(r.0@.stage) == reply_kind_for(r.1@),
{
    BatchJob::start(input_root, output_root)
}

} // verus!

verus! {

/// The supported audio files among `entries[from..]`, in order, up to the
/// first directory.
pub open spec fn frame_files(entries: Seq<DirEntryView>, from: nat) -> Seq<Seq<char>>
    decreases entries.len() - from,
{
    if from >= entries.len() {
        seq![]
    } else if entries[from as int].is_dir {
        seq![]
    } else if entries[from as int].is_file && is_supported_audio_path(entries[from as int].path) {
        seq![entries[from as int].path] + frame_files(entries, from + 1)
    } else {
        frame_files(entries, from + 1)
    }
}

/// Some entry of `entries[from..]` is a directory.
pub open spec fn frame_has_dir(entries: Seq<DirEntryView>, from: nat) -> bool
    decreases entries.len() - from,
{
    if from >= entries.len() {
        false
    } else {
        entries[from as int].is_dir || frame_has_dir(entries, from + 1)
    }
}

/// The supported audio files the walk passes, in the order it passes
/// them, before it must list a directory, meets an error or ends: those of
/// the innermost directory first, then, if that directory holds no more
/// directories and was read without error, those of the one around it.
pub open spec fn walk_files(stack: Seq<FrameView>) -> Seq<Seq<char>>
    decreases stack.len(),
{
    if stack.len() == 0 {
        seq![]
    } else {
        let f = stack.last();
        frame_files(f.entries, f.next) + if frame_has_dir(f.entries, f.next) || f.error is Some {
            seq![]
        } else {
            walk_files(stack.drop_last())
        }
    }
}

/// The walk keeps what it has found and adds, once each and in order,
/// exactly the supported audio files it passes before it must list the
/// next directory or comes to the end.
pub proof fn lemma_walk_keeps_each_file(stack: Seq<FrameView>, found: Seq<Seq<char>>)
    ensures
        collect_run(stack, found) matches CollectStep::NeedList(_, f, _) ==> f == found + walk_files(stack),
        collect_run(stack, found) matches CollectStep::Complete(f) ==> f == found + walk_files(stack),
    decreases remaining(stack),
{
    lemma_collect_step_decreases(stack, found);
    if stack.len() == 0 {
        assert(found + Seq::<Seq<char>>::empty() =~= found);
    } else {
        let f = stack.last();
        if f.next < f.entries.len() {
            let e = f.entries[f.next as int];
            let f2 = FrameView { next: f.next + 1, ..f };
            let s2 = stack.update(stack.len() - 1, f2);
            assert(s2.drop_last() =~= stack.drop_last());
            assert(s2.last() == f2);
            if e.is_dir {
                assert(found + Seq::<Seq<char>>::empty() =~= found);
            } else if e.is_file && is_supported_audio_path(e.path) {
                lemma_walk_keeps_each_file(s2, found.push(e.path));
                assert(walk_files(stack) =~= seq![e.path] + walk_files(s2));
                assert(found.push(e.path) + walk_files(s2) =~= found + walk_files(stack));
            } else {
                lemma_walk_keeps_each_file(s2, found);
                assert(walk_files(stack) =~= walk_files(s2));
            }
        } else if f.error is None {
            lemma_walk_keeps_each_file(stack.drop_last(), found);
            assert(walk_files(stack) =~= walk_files(stack.drop_last()));
        }
    }
}

} // verus!
