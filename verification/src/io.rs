//! The work that the library asks its caller to do on the file system, the
//! clock and other programs, and the replies it expects.
use vstd::prelude::*;

use crate::bundle::{CommandReport, CommandReportView, CommandSpec, CommandView};
use crate::types::{view_opt, BundleMetadata, BundleView};

verus! {

/// One piece of outside work.
pub enum IoRequest {
    /// Does the path exist?  Reply: `Answer`.
    PathExists(String),
    /// Is the path a file?  Reply: `Answer`.
    PathIsFile(String),
    /// Is the path a directory?  Reply: `Answer`.
    PathIsDir(String),
    /// Remove the directory and all it holds.  Reply: `Completed`.
    RemoveDirAll(String),
    /// Create the directory and its parents.  Reply: `Completed`.
    CreateDirAll(String),
    /// Run the command.  Reply: `Ran`.
    Run(CommandSpec),
    /// Write the bytes to the file.  Reply: `Completed`.
    WriteFile(String, Vec<u8>),
    /// Read the decimal number of seconds and give it in milliseconds,
    /// rounded.  Reply: `Duration`.
    ParseDuration(String),
    /// Read the clock, in milliseconds since the Unix epoch.  Reply:
    /// `Clock`.
    ReadClock,
    /// Write the bundle metadata as pretty JSON followed by a newline.
    /// Reply: `BundleWritten`.
    WriteBundle(String, BundleMetadata),
    /// List the directory.  Reply: `Listed`.
    ListDir(String),
}

pub enum IoRequestView {
    PathExists(Seq<char>),
    PathIsFile(Seq<char>),
    PathIsDir(Seq<char>),
    RemoveDirAll(Seq<char>),
    CreateDirAll(Seq<char>),
    Run(CommandView),
    WriteFile(Seq<char>, Seq<u8>),
    ParseDuration(Seq<char>),
    ReadClock,
    WriteBundle(Seq<char>, BundleView),
    ListDir(Seq<char>),
}

impl View for IoRequest {
    type V = IoRequestView;

    open spec fn view(&self) -> IoRequestView {
        match self {
            IoRequest::PathExists(p) => IoRequestView::PathExists(p@),
            IoRequest::PathIsFile(p) => IoRequestView::PathIsFile(p@),
            IoRequest::PathIsDir(p) => IoRequestView::PathIsDir(p@),
            IoRequest::RemoveDirAll(p) => IoRequestView::RemoveDirAll(p@),
            IoRequest::CreateDirAll(p) => IoRequestView::CreateDirAll(p@),
            IoRequest::Run(c) => IoRequestView::Run(c@),
            IoRequest::WriteFile(p, b) => IoRequestView::WriteFile(p@, b@),
            IoRequest::ParseDuration(t) => IoRequestView::ParseDuration(t@),
            IoRequest::ReadClock => IoRequestView::ReadClock,
            IoRequest::WriteBundle(p, b) => IoRequestView::WriteBundle(p@, b@),
            IoRequest::ListDir(p) => IoRequestView::ListDir(p@),
        }
    }
}

/// Why writing `bundle.json` failed: creating the file, writing the JSON,
/// or writing the final newline; each with the error's message.
#[derive(Debug, Clone, PartialEq, Eq)]
pub enum BundleWriteError {
    Create(String),
    Serialize(String),
    Finalize(String),
}

pub enum BundleWriteErrorView {
    Create(Seq<char>),
    Serialize(Seq<char>),
    Finalize(Seq<char>),
}

impl View for BundleWriteError {
    type V = BundleWriteErrorView;

    open spec fn view(&self) -> BundleWriteErrorView {
        match self {
            BundleWriteError::Create(m) => BundleWriteErrorView::Create(m@),
            BundleWriteError::Serialize(m) => BundleWriteErrorView::Serialize(m@),
            BundleWriteError::Finalize(m) => BundleWriteErrorView::Finalize(m@),
        }
    }
}

/// One entry of a directory, with what the file system says of it.
#[derive(Debug, Clone, PartialEq, Eq)]
pub struct DirEntryInfo {
    pub path: String,
    pub is_dir: bool,
    pub is_file: bool,
}

pub struct DirEntryView {
    pub path: Seq<char>,
    pub is_dir: bool,
    pub is_file: bool,
}

impl View for DirEntryInfo {
    type V = DirEntryView;

    open spec fn view(&self) -> DirEntryView {
        DirEntryView { path: self.path@, is_dir: self.is_dir, is_file: self.is_file }
    }
}

/// The entries of a directory in the order the file system gives them, up
/// to the first entry that could not be read, whose error ends the list.
#[derive(Debug, Clone, PartialEq, Eq)]
pub struct DirListing {
    pub entries: Vec<DirEntryInfo>,
    pub error: Option<String>,
}

pub struct DirListingView {
    pub entries: Seq<DirEntryView>,
    pub error: Option<Seq<char>>,
}

pub open spec fn view_entries(v: Seq<DirEntryInfo>) -> Seq<DirEntryView> {
    v.map_values(|e: DirEntryInfo| e@)
}

impl View for DirListing {
    type V = DirListingView;

    open spec fn view(&self) -> DirListingView {
        DirListingView { entries: view_entries(self.entries@), error: view_opt(self.error) }
    }
}

/// The reply to a piece of outside work.  Errors are given by their
/// messages.
pub enum IoReply {
    Answer(bool),
    Completed(Result<(), String>),
    Ran(CommandReport),
    Duration(Result<u64, String>),
    Clock(Result<u128, String>),
    BundleWritten(Result<(), BundleWriteError>),
    Listed(Result<DirListing, String>),
}

pub enum IoReplyView {
    Answer(bool),
    Completed(Result<(), Seq<char>>),
    Ran(CommandReportView),
    Duration(Result<u64, Seq<char>>),
    Clock(Result<u128, Seq<char>>),
    BundleWritten(Result<(), BundleWriteErrorView>),
    Listed(Result<DirListingView, Seq<char>>),
}

pub open spec fn view_result<T, V>(r: Result<T, String>, f: spec_fn(T) -> V) -> Result<V, Seq<char>> {
    match r {
        Ok(t) => Ok(f(t)),
        Err(e) => Err(e@),
    }
}

impl View for IoReply {
    type V = IoReplyView;

    open spec fn view(&self) -> IoReplyView {
        match self {
            IoReply::Answer(b) => IoReplyView::Answer(*b),
            IoReply::Completed(r) => IoReplyView::Completed(view_result(*r, |u: ()| u)),
            IoReply::Ran(c) => IoReplyView::Ran(c@),
            IoReply::Duration(r) => IoReplyView::Duration(view_result(*r, |d: u64| d)),
            IoReply::Clock(r) => IoReplyView::Clock(view_result(*r, |t: u128| t)),
            IoReply::BundleWritten(r) => IoReplyView::BundleWritten(
                match r {
                    Ok(u) => Ok(*u),
                    Err(e) => Err(e@),
                },
            ),
            IoReply::Listed(r) => IoReplyView::Listed(view_result(*r, |l: DirListing| l@)),
        }
    }
}

/// The kinds of reply.
#[derive(Debug, Clone, Copy, PartialEq, Eq)]
pub enum ReplyKind {
    Answer,
    Completed,
    Ran,
    Duration,
    Clock,
    BundleWritten,
    Listed,
}

pub open spec fn reply_kind_of(r: IoReplyView) -> ReplyKind {
    match r {
        IoReplyView::Answer(_) => ReplyKind::Answer,
        IoReplyView::Completed(_) => ReplyKind::Completed,
        IoReplyView::Ran(_) => ReplyKind::Ran,
        IoReplyView::Duration(_) => ReplyKind::Duration,
        IoReplyView::Clock(_) => ReplyKind::Clock,
        IoReplyView::BundleWritten(_) => ReplyKind::BundleWritten,
        IoReplyView::Listed(_) => ReplyKind::Listed,
    }
}

/// The kind of reply that a request asks for.
pub open spec fn reply_kind_for(r: IoRequestView) -> ReplyKind {
    match r {
        IoRequestView::PathExists(_) => ReplyKind::Answer,
        IoRequestView::PathIsFile(_) => ReplyKind::Answer,
        IoRequestView::PathIsDir(_) => ReplyKind::Answer,
        IoRequestView::RemoveDirAll(_) => ReplyKind::Completed,
        IoRequestView::CreateDirAll(_) => ReplyKind::Completed,
        IoRequestView::Run(_) => ReplyKind::Ran,
        IoRequestView::WriteFile(_, _) => ReplyKind::Completed,
        IoRequestView::ParseDuration(_) => ReplyKind::Duration,
        IoRequestView::ReadClock => ReplyKind::Clock,
        IoRequestView::WriteBundle(_, _) => ReplyKind::BundleWritten,
        IoRequestView::ListDir(_) => ReplyKind::Listed,
    }
}

impl IoReply {
    pub fn kind(&self) -> (k: ReplyKind)
        ensures
            k == reply_kind_of(self@),
    {
        match self {
            IoReply::Answer(_) => ReplyKind::Answer,
            IoReply::Completed(_) => ReplyKind::Completed,
            IoReply::Ran(_) => ReplyKind::Ran,
            IoReply::Duration(_) => ReplyKind::Duration,
            IoReply::Clock(_) => ReplyKind::Clock,
            IoReply::BundleWritten(_) => ReplyKind::BundleWritten,
            IoReply::Listed(_) => ReplyKind::Listed,
        }
    }
}

impl IoRequest {
    pub fn reply_kind(&self) -> (k: ReplyKind)
        ensures
            k == reply_kind_for(self@),
    {
        match self {
            IoRequest::PathExists(_) => ReplyKind::Answer,
            IoRequest::PathIsFile(_) => ReplyKind::Answer,
            IoRequest::PathIsDir(_) => ReplyKind::Answer,
            IoRequest::RemoveDirAll(_) => ReplyKind::Completed,
            IoRequest::CreateDirAll(_) => ReplyKind::Completed,
            IoRequest::Run(_) => ReplyKind::Ran,
            IoRequest::WriteFile(_, _) => ReplyKind::Completed,
            IoRequest::ParseDuration(_) => ReplyKind::Duration,
            IoRequest::ReadClock => ReplyKind::Clock,
            IoRequest::WriteBundle(_, _) => ReplyKind::BundleWritten,
            IoRequest::ListDir(_) => ReplyKind::Listed,
        }
    }
}

} // verus!
