use vstd::prelude::*;

verus! {

/// One line of a content search: the file, the 1-based line number and the
/// trimmed line.
#[derive(Debug, Clone, PartialEq, Eq)]
pub struct SearchResult {
    pub file: String,
    pub line: usize,
    pub content: String,
}

/// An entry of the project tree.
#[derive(Debug)]
pub struct FileNode {
    pub name: String,
    pub path: String,
    pub is_dir: bool,
    pub children: Option<Vec<FileNode>>,
}

/// A changed file with its two-letter porcelain status.
#[derive(Debug, Clone, PartialEq, Eq)]
pub struct GitFile {
    pub path: String,
    pub status: String,
}

/// The branch, ahead/behind counts and changed files of a work tree.
#[derive(Debug, Clone, PartialEq, Eq)]
pub struct GitStatus {
    pub branch: String,
    pub files: Vec<GitFile>,
    pub ahead: i32,
    pub behind: i32,
}

/// A local or remote branch.
#[derive(Debug, Clone, PartialEq, Eq)]
pub struct GitBranch {
    pub name: String,
    pub current: bool,
    pub remote: String,
}

/// One commit of the history.
#[derive(Debug, Clone, PartialEq, Eq)]
pub struct GitCommit {
    pub hash: String,
    pub author: String,
    pub email: String,
    pub timestamp: i64,
    pub message: String,
    pub body: String,
}

/// The diff of one file, staged or not.
#[derive(Debug, Clone, PartialEq, Eq)]
pub struct GitDiff {
    pub file: String,
    pub content: String,
    pub staged: bool,
}

/// A configured remote.
#[derive(Debug, Clone, PartialEq, Eq)]
pub struct GitRemote {
    pub name: String,
    pub url: String,
}

/// Mathematical form of [`GitFile`].
pub struct GitFileView {
    pub path: Seq<char>,
    pub status: Seq<char>,
}

impl View for GitFile {
    type V = GitFileView;

    open spec fn view(&self) -> GitFileView {
        GitFileView { path: self.path@, status: self.status@ }
    }
}

/// The views of a sequence of files.
pub open spec fn files_view(v: Seq<GitFile>) -> Seq<GitFileView> {
    v.map_values(|f: GitFile| f@)
}

/// Mathematical form of [`GitStatus`].
pub struct GitStatusView {
    pub branch: Seq<char>,
    pub files: Seq<GitFileView>,
    pub ahead: i32,
    pub behind: i32,
}

impl View for GitStatus {
    type V = GitStatusView;

    open spec fn view(&self) -> GitStatusView {
        GitStatusView {
            branch: self.branch@,
            files: files_view(self.files@),
            ahead: self.ahead,
            behind: self.behind,
        }
    }
}

/// Mathematical form of [`GitBranch`].
pub struct GitBranchView {
    pub name: Seq<char>,
    pub current: bool,
    pub remote: Seq<char>,
}

impl View for GitBranch {
    type V = GitBranchView;

    open spec fn view(&self) -> GitBranchView {
        GitBranchView { name: self.name@, current: self.current, remote: self.remote@ }
    }
}

/// Mathematical form of [`GitCommit`].
pub struct GitCommitView {
    pub hash: Seq<char>,
    pub author: Seq<char>,
    pub email: Seq<char>,
    pub timestamp: i64,
    pub message: Seq<char>,
    pub body: Seq<char>,
}

impl View for GitCommit {
    type V = GitCommitView;

    open spec fn view(&self) -> GitCommitView {
        GitCommitView {
            hash: self.hash@,
            author: self.author@,
            email: self.email@,
            timestamp: self.timestamp,
            message: self.message@,
            body: self.body@,
        }
    }
}

/// Mathematical form of [`GitRemote`].
pub struct GitRemoteView {
    pub name: Seq<char>,
    pub url: Seq<char>,
}

impl View for GitRemote {
    type V = GitRemoteView;

    open spec fn view(&self) -> GitRemoteView {
        GitRemoteView { name: self.name@, url: self.url@ }
    }
}

/// Mathematical form of [`SearchResult`].
pub struct SearchResultView {
    pub file: Seq<char>,
    pub line: int,
    pub content: Seq<char>,
}

impl View for SearchResult {
    type V = SearchResultView;

    open spec fn view(&self) -> SearchResultView {
        SearchResultView { file: self.file@, line: self.line as int, content: self.content@ }
    }
}

/// The views of a sequence of search results.
pub open spec fn hits_view(v: Seq<SearchResult>) -> Seq<SearchResultView> {
    v.map_values(|r: SearchResult| r@)
}

} // verus!
