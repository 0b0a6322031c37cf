//! Process and terminal execution core of a desktop development tool.
//!
//! The library holds the decisions of the core: which interactive sessions
//! and watched one-shot processes are live, what input is owed to each
//! child, which events the client sees and when the one terminal event of
//! an id is due. The host performs the operating-system work (pseudo
//! terminals, processes, files) and hands the outcomes back.
//!
//! Around the core sit the collaborators a development tool needs: parsers
//! for git's machine-readable output, routing to code formatters, marker
//! and content search, fuzzy file ranking, the plugin table and the
//! interpreter-environment probes.

mod commands;
mod environments;
mod events;
mod formatter;
mod git;
mod manifest;
mod models;
mod plugins;
mod registry;
mod runner;
mod search;
mod supervisor;
mod text;
mod todos;
mod tree;

pub use commands::{
    decimal_digits, decimal_string, digit_char, gh_gist_create_args, gh_pr_merge_args,
    gh_pr_review_args, gh_repo_create_args, gh_result, git_add_args, git_delete_branch_args,
    git_diff_args, git_discard_args, git_log_args, git_push_args, git_stash_args,
    git_unstage_args, LOG_FORMAT,
};
pub use environments::{
    environment_probes, locate_command, probe_entries, resolve_environment, EnvKind, EnvProbe,
    Environment,
};
pub use events::{
    channel_of, line_body, line_output, raw_line_output, lossy_utf8, spawn_failed, terminal_event, terminal_event_for,
    terminal_output, Event, EventView, ExitOutcome, ExitOutcomeView, StreamKind,
};
pub use formatter::{
    args_view, code_args, code_format_result, code_invocation, code_start_error, ext_for_parser,
    extension_of, file_args, file_format_result, file_formatter, file_invocation,
    file_start_error, formatter_for_language, formatter_for_path, get_ext_for_parser,
    language_formatter, parser_for, path_extension, prettier_parser, program_of, Formatter,
    Invocation,
};
pub use git::{
    branch_header, count_text, branches_of, branches_view, commit_of, commits_of,
    commits_view, count_after, law_ahead_count, i32_or_zero, is_header, log_of, nonempty, parse_branches,
    parse_log, parse_remotes, parse_stash_list, parse_status, parse_status_entries, remotes_of,
    remotes_view, status_entry, status_files, status_of, strings_view, words, words_acc,
};
pub use manifest::{
    needs_main_content, Command, Contributions, Keybinding, Language, LoadedPlugin,
    PluginManifest, PluginType, Theme, View,
};
pub use models::{
    files_view, hits_view, FileNode, GitBranch, GitBranchView, GitCommit, GitCommitView, GitDiff,
    GitFile, GitFileView, GitRemote, GitRemoteView, GitStatus, GitStatusView, SearchResult,
    SearchResultView,
};
pub use plugins::{
    bundled, bundled_plugin, plugin_not_found, PluginManager, AUTO_SAVE_INDEX, AUTO_SAVE_MANIFEST,
    BRACKETS_INDEX, BRACKETS_MANIFEST, GIT_LENS_INDEX, GIT_LENS_MANIFEST, PRETTIER_INDEX,
    PRETTIER_MANIFEST,
};
pub use registry::{Registry, RegistryError};
pub use runner::{collect_output, collected, collecting_result, result_view, ProcessOutput};
pub use search::{
    best_first, forward_slashes, fuzzy_rank, insert_desc, law_ranked_best_first, line_hits, match_form, match_path, remove_all,
    results_view, scored, search_content, skim_score, sort_desc, strip_leading_slashes,
    top_matches, FileResult, FileResultView, MAX_FUZZY_RESULTS, SEARCH_RESULT_LIMIT,
};
pub use supervisor::{
    after_finish, after_open_session, after_resize, after_steps, after_take_input, after_track,
    after_write, cancel_target, finish_event, is_live, law_live_from_open_until_exit,
    law_one_terminal_event, law_write_order, terminal_events, CoreError, RaceStep, Session,
    SessionView, Supervisor, SupervisorView,
};
pub use text::{
    chars_of, decimal, digits_value, find, find_chars, is_digit, is_white_space, lines, lines_of,
    parse_i64, parsed_i64, split, split_chars, split_pair, split_pair_chars, str_eq, string_of,
    trim, trim_chars,
};
pub use todos::{
    by_priority, extract_todos, law_priority_order, first_text, is_scanned_extension, keyword_text, line_markers,
    lower_of, lowercase, marker_kinds, markers_of, of_rank, priority, scanned_extensions,
    sort_by_priority, todos_view, TodoItem, TodoView,
};
pub use tree::{
    folders_first, insert_node, is_heavy_folder, law_listing_folders_first, is_scanned_entry, is_searched_entry, listing, name_lt, node_lt,
    order_entries,
};
