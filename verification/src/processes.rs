//! The processes of services: finding them in what the system lists, telling
//! which are orphaned, and keeping account of those that are ended.
use vstd::prelude::*;

use crate::arguments::{has_pair, push_text};
use crate::metadata::{option_metadata_view, ServiceMetadata, ServiceMetadataView};
use crate::numbers::{
    decimal, decimal_reads_back, decimal_text, is_digit, lemma_decimal_digits, parse_u32,
    unsigned_value,
};
use crate::paths::{paths_equal, same_path};
use crate::text::{
    blank, char_index, chars_of, contains, contains_text, find, find_from, index_where,
    lemma_already_trimmed, lemma_find_from, lemma_index_where, lemma_trimmed_padding, lines,
    lines_of, occurs_at, option_str_view, option_view, owned, string_of, trim, trim_start, trimmed,
    trimmed_start, trimming_is_idempotent, trimming_takes_white_space_alone, views, white_space,
    white_space_chars, white_space_index,
};

verus! {

/// A service process that keeps a record of itself.
#[derive(Debug, PartialEq, Eq)]
pub struct ServiceRunProcess {
    pub pgid: u32,
    pub metadata_path: String,
}

/// The service process of a workspace.
#[derive(Debug, PartialEq, Eq)]
pub struct WorkspaceServiceProcess {
    pub pid: u32,
    pub ppid: u32,
    pub pgid: u32,
    pub project_root: String,
    pub metadata_path: String,
}

/// A service process as the contracts speak of it.
pub struct RunProcessView {
    pub pgid: u32,
    pub metadata_path: Seq<char>,
}

/// A workspace's process as the contracts speak of it.
pub struct WorkspaceProcessView {
    pub pid: u32,
    pub ppid: u32,
    pub pgid: u32,
    pub project_root: Seq<char>,
    pub metadata_path: Seq<char>,
}

impl View for ServiceRunProcess {
    type V = RunProcessView;

    open spec fn view(&self) -> RunProcessView {
        RunProcessView { pgid: self.pgid, metadata_path: self.metadata_path@ }
    }
}

impl View for WorkspaceServiceProcess {
    type V = WorkspaceProcessView;

    open spec fn view(&self) -> WorkspaceProcessView {
        WorkspaceProcessView {
            pid: self.pid,
            ppid: self.ppid,
            pgid: self.pgid,
            project_root: self.project_root@,
            metadata_path: self.metadata_path@,
        }
    }
}

/// The first field of a line and what follows it; none where nothing does.
pub open spec fn ps_field(line: Seq<char>) -> Option<(Seq<char>, Seq<char>)> {
    let rest = trimmed_start(line);
    let end = index_where(rest, 0, white_space_chars());
    if end < rest.len() {
        Some((rest.subrange(0, end), rest.skip(end)))
    } else {
        None
    }
}

pub fn take_ps_field(line: &str) -> (field: Option<(String, String)>)
    ensures
        match field {
            Some((first, rest)) => ps_field(line@) == Some((first@, rest@)),
            None => ps_field(line@) is None,
        },
{
    let text = trim_start(line);
    let chars = chars_of(text.as_str());
    let end = white_space_index(&chars, 0);
    if end < chars.len() {
        assert(chars@.subrange(end as int, chars@.len() as int) =~= chars@.skip(end as int));
        Some((string_of(&chars, 0, end), string_of(&chars, end, chars.len())))
    } else {
        None
    }
}

/// The value behind a flag of a command line: up to the next flag, without the
/// white space around it; none where nothing is left of it.
pub open spec fn value_after(command: Seq<char>, flag: Seq<char>) -> Option<Seq<char>> {
    let marker = " "@ + flag + " "@;
    match find_from(command, marker, 0) {
        Some(at) => {
            let value = command.skip(at + marker.len());
            let end = match find_from(value, " --"@, 0) {
                Some(next) => next,
                None => value.len() as int,
            };
            if blank(value.take(end)) {
                None
            } else {
                Some(trimmed(value.take(end)))
            }
        },
        None => None,
    }
}

pub fn command_arg_after(command: &str, flag: &str) -> (value: Option<String>)
    ensures
        option_view(value) == value_after(command@, flag@),
{
    let mut marker = owned(" ");
    marker.append(flag);
    marker.append(" ");
    let text = chars_of(command);
    let needle = chars_of(marker.as_str());
    let total: usize = text.len();
    match find(&text, &needle, 0) {
        Some(at) => {
            assert(at + needle@.len() <= total);
            let start: usize = at + needle.len();
            let value = string_of(&text, start, total);
            assert(value@ =~= command@.skip(at + needle@.len()));
            let rest = chars_of(value.as_str());
            let next = chars_of(" --");
            let end: usize = match find(&rest, &next, 0) {
                Some(i) => i,
                None => rest.len(),
            };
            let part = string_of(&rest, 0, end);
            assert(part@ =~= value@.take(end as int));
            let kept = trim(part.as_str());
            if kept.as_str().is_empty() {
                None
            } else {
                Some(kept)
            }
        },
        None => None,
    }
}

/// A command line that runs a service with a record.
pub open spec fn runs_recorded_service(command: Seq<char>) -> bool {
    contains_text(command, " service run "@) && contains_text(command, " --metadata-path "@)
}

fn is_recorded_service(command: &str) -> (result: bool)
    ensures
        result == runs_recorded_service(command@),
{
    contains(command, " service run ") && contains(command, " --metadata-path ")
}

/// The process number that a text gives.
pub open spec fn process_number(text: Seq<char>) -> Option<u32> {
    match unsigned_value(text, u32::MAX as nat) {
        Some(number) => Some(number as u32),
        None => None,
    }
}

/// The process of a service with a record, of its group and its command line.
pub open spec fn run_process(group: Seq<char>, command: Seq<char>) -> Option<RunProcessView> {
    match (process_number(group), value_after(command, "--metadata-path"@)) {
        (Some(pgid), Some(metadata_path)) => if runs_recorded_service(command) {
            Some(RunProcessView { pgid, metadata_path })
        } else {
            None
        },
        _ => None,
    }
}

/// A service process as an optional value.
pub open spec fn option_run_view(process: Option<ServiceRunProcess>) -> Option<RunProcessView> {
    match process {
        Some(found) => Some(found@),
        None => None,
    }
}

fn make_run_process(group: &str, command: &str) -> (process: Option<ServiceRunProcess>)
    ensures
        option_run_view(process) == run_process(group@, command@),
{
    if !is_recorded_service(command) {
        return None;
    }
    match (parse_u32(group), command_arg_after(command, "--metadata-path")) {
        (Some(pgid), Some(metadata_path)) => Some(ServiceRunProcess { pgid, metadata_path }),
        _ => None,
    }
}

/// The service process that a line of `ps` with group and command shows.
pub open spec fn run_process_of_line(line: Seq<char>) -> Option<RunProcessView> {
    match ps_field(line) {
        Some((group, command)) => run_process(group, command),
        None => None,
    }
}

pub fn parse_service_run_process_line(line: &str) -> (process: Option<ServiceRunProcess>)
    ensures
        option_run_view(process) == run_process_of_line(line@),
{
    match take_ps_field(line) {
        Some((group, command)) => make_run_process(group.as_str(), command.as_str()),
        None => None,
    }
}

/// The service process that a line with number, tab and command shows.
pub open spec fn windows_process_of_line(line: Seq<char>) -> Option<RunProcessView> {
    let text = trimmed(line);
    let tab = index_where(text, 0, |c: char| c == '\t');
    if tab < text.len() {
        run_process(text.subrange(0, tab), text.skip(tab + 1))
    } else {
        None
    }
}

pub fn parse_windows_service_run_process_line(line: &str) -> (process: Option<ServiceRunProcess>)
    ensures
        option_run_view(process) == windows_process_of_line(line@),
{
    let text = trim(line);
    let chars = chars_of(text.as_str());
    let tab = char_index(&chars, 0, '\t');
    if tab < chars.len() {
        let number = string_of(&chars, 0, tab);
        let command = string_of(&chars, tab + 1, chars.len());
        assert(command@ =~= text@.skip(tab + 1));
        make_run_process(number.as_str(), command.as_str())
    } else {
        None
    }
}

/// The process of a workspace's service that a line of `ps` with process,
/// parent, group and command shows.
pub open spec fn workspace_process_of_line(line: Seq<char>) -> Option<WorkspaceProcessView> {
    match ps_field(line) {
        Some((pid, rest)) => match ps_field(rest) {
            Some((ppid, rest)) => match ps_field(rest) {
                Some((pgid, command)) => workspace_process(pid, ppid, pgid, command),
                None => None,
            },
            None => None,
        },
        None => None,
    }
}

/// The process of a workspace's service, of its numbers and its command line.
pub open spec fn workspace_process(
    pid: Seq<char>,
    ppid: Seq<char>,
    pgid: Seq<char>,
    command: Seq<char>,
) -> Option<WorkspaceProcessView> {
    if runs_recorded_service(command) && contains_text(command, " --server-kind workspace"@)
        && value_after(command, "--project-root"@) is Some && value_after(
        command,
        "--metadata-path"@,
    ) is Some && process_number(pid) is Some && process_number(ppid) is Some && process_number(
        pgid,
    ) is Some {
        Some(
            WorkspaceProcessView {
                pid: process_number(pid)->Some_0,
                ppid: process_number(ppid)->Some_0,
                pgid: process_number(pgid)->Some_0,
                project_root: value_after(command, "--project-root"@)->Some_0,
                metadata_path: value_after(command, "--metadata-path"@)->Some_0,
            },
        )
    } else {
        None
    }
}

/// A workspace's process as an optional value.
pub open spec fn option_workspace_view(process: Option<WorkspaceServiceProcess>) -> Option<
    WorkspaceProcessView,
> {
    match process {
        Some(found) => Some(found@),
        None => None,
    }
}

pub fn parse_workspace_service_process_line(line: &str) -> (process: Option<
    WorkspaceServiceProcess,
>)
    ensures
        option_workspace_view(process) == workspace_process_of_line(line@),
{
    let (pid, rest) = match take_ps_field(line) {
        Some(field) => field,
        None => return None,
    };
    let (ppid, rest) = match take_ps_field(rest.as_str()) {
        Some(field) => field,
        None => return None,
    };
    let (pgid, command) = match take_ps_field(rest.as_str()) {
        Some(field) => field,
        None => return None,
    };
    if !is_recorded_service(command.as_str()) || !contains(
        command.as_str(),
        " --server-kind workspace",
    ) {
        return None;
    }
    let project_root = command_arg_after(command.as_str(), "--project-root");
    let metadata_path = command_arg_after(command.as_str(), "--metadata-path");
    match (
        project_root,
        metadata_path,
        parse_u32(pid.as_str()),
        parse_u32(ppid.as_str()),
        parse_u32(pgid.as_str()),
    ) {
        (Some(project_root), Some(metadata_path), Some(pid), Some(ppid), Some(pgid)) => Some(
            WorkspaceServiceProcess { pid, ppid, pgid, project_root, metadata_path },
        ),
        _ => None,
    }
}

/// The service processes that lines show, each read by `read`.
pub open spec fn processes_of_lines(
    lines: Seq<Seq<char>>,
    read: spec_fn(Seq<char>) -> Option<RunProcessView>,
) -> Seq<RunProcessView>
    decreases lines.len(),
{
    if lines.len() == 0 {
        Seq::empty()
    } else {
        match read(lines.last()) {
            Some(process) => processes_of_lines(lines.drop_last(), read).push(process),
            None => processes_of_lines(lines.drop_last(), read),
        }
    }
}

/// How the lines of a list of processes are read.
pub open spec fn line_reader(windows: bool) -> spec_fn(Seq<char>) -> Option<RunProcessView> {
    if windows {
        |line: Seq<char>| windows_process_of_line(line)
    } else {
        |line: Seq<char>| run_process_of_line(line)
    }
}

/// A line that shows a service process puts it among those that the lines show.
pub proof fn lemma_shown_process(
    lines: Seq<Seq<char>>,
    read: spec_fn(Seq<char>) -> Option<RunProcessView>,
    i: int,
)
    requires
        0 <= i < lines.len(),
        read(lines[i]) is Some,
    ensures
        processes_of_lines(lines, read).contains(read(lines[i])->Some_0),
    decreases lines.len(),
{
    let before = processes_of_lines(lines.drop_last(), read);
    let shown = read(lines[i])->Some_0;
    if i == lines.len() - 1 {
        assert(processes_of_lines(lines, read).last() == shown);
    } else {
        lemma_shown_process(lines.drop_last(), read, i);
        let at = choose|at: int| 0 <= at < before.len() && before[at] == shown;
        assert(processes_of_lines(lines, read)[at] == shown);
    }
}

/// What each process of a list is.
pub open spec fn run_views(list: Seq<ServiceRunProcess>) -> Seq<RunProcessView> {
    list.map_values(|process: ServiceRunProcess| process@)
}

/// What each workspace's process of a list is.
pub open spec fn workspace_views(list: Seq<WorkspaceServiceProcess>) -> Seq<WorkspaceProcessView> {
    list.map_values(|process: WorkspaceServiceProcess| process@)
}

/// The service processes in a list that the system prints: on Windows lines
/// with number, tab and command; elsewhere lines of `ps` with group and command.
pub fn service_run_processes(output: &str, windows: bool) -> (processes: Vec<ServiceRunProcess>)
    ensures
        run_views(processes@) == processes_of_lines(lines_of(output@), line_reader(windows)),
{
    let all = lines(output);
    let ghost texts = lines_of(output@);
    let ghost read = line_reader(windows);
    let mut processes: Vec<ServiceRunProcess> = Vec::new();
    let mut i: usize = 0;
    assert(texts.take(0) =~= Seq::empty());
    assert(run_views(processes@) =~= Seq::empty());
    while i < all.len()
        invariant
            i <= all@.len(),
            views(all@) == texts,
            read == line_reader(windows),
            run_views(processes@) == processes_of_lines(texts.take(i as int), read),
        decreases all@.len() - i,
    {
        let ghost before = run_views(processes@);
        assert(views(all@)[i as int] == all@[i as int]@);
        let line = all[i].as_str();
        let found = if windows {
            parse_windows_service_run_process_line(line)
        } else {
            parse_service_run_process_line(line)
        };
        assert(option_run_view(found) == read(line@));
        i += 1;
        assert(texts.take(i as int).drop_last() =~= texts.take(i - 1));
        if let Some(process) = found {
            let ghost shown = process@;
            processes.push(process);
            assert(run_views(processes@) =~= before.push(shown));
        }
    }
    assert(texts.take(i as int) =~= texts);
    processes
}

/// The workspaces' processes that lines show.
pub open spec fn workspace_processes_of_lines(lines: Seq<Seq<char>>) -> Seq<WorkspaceProcessView>
    decreases lines.len(),
{
    if lines.len() == 0 {
        Seq::empty()
    } else {
        match workspace_process_of_line(lines.last()) {
            Some(process) => workspace_processes_of_lines(lines.drop_last()).push(process),
            None => workspace_processes_of_lines(lines.drop_last()),
        }
    }
}

/// The workspaces' processes in what `ps` prints. On Windows they are kept
/// track of by their records alone.
pub fn workspace_service_processes(output: &str, windows: bool) -> (processes: Vec<
    WorkspaceServiceProcess,
>)
    ensures
        workspace_views(processes@) == if windows {
            Seq::empty()
        } else {
            workspace_processes_of_lines(lines_of(output@))
        },
{
    let mut processes: Vec<WorkspaceServiceProcess> = Vec::new();
    assert(workspace_views(processes@) =~= Seq::empty());
    if windows {
        return processes;
    }
    let all = lines(output);
    let ghost texts = lines_of(output@);
    let mut i: usize = 0;
    assert(texts.take(0) =~= Seq::empty());
    while i < all.len()
        invariant
            i <= all@.len(),
            views(all@) == texts,
            workspace_views(processes@) == workspace_processes_of_lines(texts.take(i as int)),
        decreases all@.len() - i,
    {
        let ghost before = workspace_views(processes@);
        assert(views(all@)[i as int] == all@[i as int]@);
        let found = parse_workspace_service_process_line(all[i].as_str());
        i += 1;
        assert(texts.take(i as int).drop_last() =~= texts.take(i - 1));
        if let Some(process) = found {
            let ghost shown = process@;
            processes.push(process);
            assert(workspace_views(processes@) =~= before.push(shown));
        }
    }
    assert(texts.take(i as int) =~= texts);
    processes
}

/// What a record says of the workspace that it belongs to.
#[derive(Debug)]
pub struct WorkspaceRecord {
    pub metadata_path: String,
    pub project_root: String,
    pub pid: u32,
}

/// A workspace's record as the contracts speak of it.
pub struct WorkspaceRecordView {
    pub metadata_path: Seq<char>,
    pub project_root: Seq<char>,
    pub pid: u32,
}

impl View for WorkspaceRecord {
    type V = WorkspaceRecordView;

    open spec fn view(&self) -> WorkspaceRecordView {
        WorkspaceRecordView {
            metadata_path: self.metadata_path@,
            project_root: self.project_root@,
            pid: self.pid,
        }
    }
}

/// What each record of a list is.
pub open spec fn record_views(list: Seq<WorkspaceRecord>) -> Seq<WorkspaceRecordView> {
    list.map_values(|record: WorkspaceRecord| record@)
}

/// The record at a path: the last one that was read.
pub open spec fn record_at(records: Seq<WorkspaceRecordView>, path: Seq<char>) -> Option<
    WorkspaceRecordView,
>
    decreases records.len(),
{
    if records.len() == 0 {
        None
    } else if paths_equal(records.last().metadata_path, path, false) {
        Some(records.last())
    } else {
        record_at(records.drop_last(), path)
    }
}

/// A process that its record names. Processes of workspaces are listed on Unix alone,
/// so their paths are compared by its rules.
pub open spec fn is_current(
    process: WorkspaceProcessView,
    records: Seq<WorkspaceRecordView>,
) -> bool {
    match record_at(records, process.metadata_path) {
        Some(record) => paths_equal(record.project_root, process.project_root, false) && record.pid
            == process.pgid,
        None => false,
    }
}

pub fn workspace_service_process_is_current(
    process: &WorkspaceServiceProcess,
    records: &Vec<WorkspaceRecord>,
) -> (result: bool)
    ensures
        result == is_current(process@, record_views(records@)),
{
    let ghost all = record_views(records@);
    let mut i: usize = records.len();
    assert(all.take(i as int) =~= all);
    while i > 0
        invariant
            i <= records@.len(),
            all == record_views(records@),
            record_at(all, process.metadata_path@) == record_at(
                all.take(i as int),
                process.metadata_path@,
            ),
        decreases i,
    {
        i -= 1;
        let record = &records[i];
        assert(all.take(i + 1).drop_last() =~= all.take(i as int));
        assert(all.take(i + 1).last() == record@);
        if same_path(
            record.metadata_path.as_str(),
            process.metadata_path.as_str(),
            false,
        ) {
            return same_path(
                record.project_root.as_str(),
                process.project_root.as_str(),
                false,
            )
                && record.pid == process.pgid;
        }
    }
    assert(all.take(0) =~= Seq::empty());
    false
}

/// A process that belongs to the project, or to any where none is given, and
/// that its record does not name.
pub open spec fn is_orphan(
    process: WorkspaceProcessView,
    project_root: Option<Seq<char>>,
    records: Seq<WorkspaceRecordView>,
) -> bool {
    &&& project_root matches Some(root) ==> paths_equal(process.project_root, root, false)
    &&& !is_current(process, records)
}

/// A process of the group is among the processes.
pub open spec fn group_listed(processes: Seq<WorkspaceProcessView>, pgid: u32) -> bool {
    exists|i: int| 0 <= i < processes.len() && #[trigger] processes[i].pgid == pgid
}

/// The orphaned processes, the first of each group.
pub open spec fn orphans(
    processes: Seq<WorkspaceProcessView>,
    project_root: Option<Seq<char>>,
    records: Seq<WorkspaceRecordView>,
) -> Seq<WorkspaceProcessView>
    decreases processes.len(),
{
    if processes.len() == 0 {
        Seq::empty()
    } else {
        let before = orphans(processes.drop_last(), project_root, records);
        let process = processes.last();
        if is_orphan(process, project_root, records) && !group_listed(before, process.pgid) {
            before.push(process)
        } else {
            before
        }
    }
}

fn lists_group(processes: &Vec<WorkspaceServiceProcess>, pgid: u32) -> (result: bool)
    ensures
        result == group_listed(workspace_views(processes@), pgid),
{
    let ghost all = workspace_views(processes@);
    let mut i: usize = 0;
    while i < processes.len()
        invariant
            i <= processes@.len(),
            all == workspace_views(processes@),
            forall|j: int| 0 <= j < i ==> #[trigger] all[j].pgid != pgid,
        decreases processes@.len() - i,
    {
        assert(all[i as int] == processes@[i as int]@);
        if processes[i].pgid == pgid {
            assert(all[i as int].pgid == pgid);
            return true;
        }
        i += 1;
    }
    false
}

fn clone_workspace_process(process: &WorkspaceServiceProcess) -> (copy: WorkspaceServiceProcess)
    ensures
        copy@ == process@,
{
    WorkspaceServiceProcess {
        pid: process.pid,
        ppid: process.ppid,
        pgid: process.pgid,
        project_root: process.project_root.clone(),
        metadata_path: process.metadata_path.clone(),
    }
}

/// The orphaned processes to end, the first of each group.
pub fn cleanup_orphaned_workspace_services(
    processes: &Vec<WorkspaceServiceProcess>,
    project_root: Option<&str>,
    records: &Vec<WorkspaceRecord>,
) -> (orphaned: Vec<WorkspaceServiceProcess>)
    ensures
        workspace_views(orphaned@) == orphans(
            workspace_views(processes@),
            option_str_view(project_root),
            record_views(records@),
        ),
{
    let ghost all = workspace_views(processes@);
    let ghost root = option_str_view(project_root);
    let ghost known = record_views(records@);
    let mut orphaned: Vec<WorkspaceServiceProcess> = Vec::new();
    let mut i: usize = 0;
    assert(all.take(0) =~= Seq::empty());
    assert(workspace_views(orphaned@) =~= Seq::empty());
    while i < processes.len()
        invariant
            i <= processes@.len(),
            all == workspace_views(processes@),
            root == option_str_view(project_root),
            known == record_views(records@),
            workspace_views(orphaned@) == orphans(all.take(i as int), root, known),
        decreases processes@.len() - i,
    {
        let ghost before = workspace_views(orphaned@);
        let process = &processes[i];
        let elsewhere = match project_root {
            Some(text) => !same_path(process.project_root.as_str(), text, false),
            None => false,
        };
        i += 1;
        assert(all.take(i as int).drop_last() =~= all.take(i - 1));
        assert(all.take(i as int).last() == process@);
        if !elsewhere && !workspace_service_process_is_current(process, records) && !lists_group(
            &orphaned,
            process.pgid,
        ) {
            let copy = clone_workspace_process(process);
            orphaned.push(copy);
            assert(workspace_views(orphaned@) =~= before.push(process@));
        }
    }
    assert(all.take(i as int) =~= all);
    orphaned
}

/// What is ended as orphaned is exactly what is: each process that is listed is
/// orphaned, each group of an orphaned process is listed, and none twice.
pub proof fn orphans_are_exact(
    processes: Seq<WorkspaceProcessView>,
    project_root: Option<Seq<char>>,
    records: Seq<WorkspaceRecordView>,
)
    ensures
        ({
            let ended = orphans(processes, project_root, records);
            &&& forall|i: int|
                0 <= i < ended.len() ==> is_orphan(#[trigger] ended[i], project_root, records)
            &&& forall|i: int|
                0 <= i < processes.len() && is_orphan(
                    #[trigger] processes[i],
                    project_root,
                    records,
                ) ==> group_listed(ended, processes[i].pgid)
            &&& forall|i: int, j: int|
                0 <= i < j < ended.len() ==> #[trigger] ended[i].pgid != #[trigger] ended[j].pgid
        }),
    decreases processes.len(),
{
    if processes.len() > 0 {
        orphans_are_exact(processes.drop_last(), project_root, records);
        let before = orphans(processes.drop_last(), project_root, records);
        let ended = orphans(processes, project_root, records);
        let last = processes.last();
        assert(forall|i: int| 0 <= i < before.len() ==> #[trigger] ended[i] == before[i]);
        assert forall|pgid: u32| group_listed(before, pgid) implies #[trigger] group_listed(
            ended,
            pgid,
        ) by {
            let i = choose|i: int| 0 <= i < before.len() && #[trigger] before[i].pgid == pgid;
            assert(ended[i].pgid == pgid);
        }
        assert forall|i: int|
            0 <= i < processes.len() && is_orphan(
                #[trigger] processes[i],
                project_root,
                records,
            ) implies group_listed(ended, processes[i].pgid) by {
            if i < processes.len() - 1 {
                assert(processes.drop_last()[i] == processes[i]);
                assert(group_listed(before, processes[i].pgid));
            } else if !group_listed(before, last.pgid) {
                assert(ended.last() == last);
                assert(ended[ended.len() - 1].pgid == last.pgid);
            }
        }
    }
}

/// A service that was ended, and how it was known.
#[derive(Debug)]
pub enum KilledService {
    LaunchAgent { pid: u32 },
    Recorded { pid: u32, project_root: String, url: String },
    Process { pid: u32, metadata_path: String },
    Orphaned { pid: u32, project_root: String, metadata_path: String },
}

/// A service that was ended, as the contracts speak of it.
pub enum KilledView {
    LaunchAgent { pid: u32 },
    Recorded { pid: u32, project_root: Seq<char>, url: Seq<char> },
    Process { pid: u32, metadata_path: Seq<char> },
    Orphaned { pid: u32, project_root: Seq<char>, metadata_path: Seq<char> },
}

impl KilledView {
    pub open spec fn group(self) -> u32 {
        match self {
            KilledView::LaunchAgent { pid } => pid,
            KilledView::Recorded { pid, .. } => pid,
            KilledView::Process { pid, .. } => pid,
            KilledView::Orphaned { pid, .. } => pid,
        }
    }
}

impl View for KilledService {
    type V = KilledView;

    open spec fn view(&self) -> KilledView {
        match self {
            KilledService::LaunchAgent { pid } => KilledView::LaunchAgent { pid: *pid },
            KilledService::Recorded { pid, project_root, url } => KilledView::Recorded {
                pid: *pid,
                project_root: project_root@,
                url: url@,
            },
            KilledService::Process { pid, metadata_path } => KilledView::Process {
                pid: *pid,
                metadata_path: metadata_path@,
            },
            KilledService::Orphaned { pid, project_root, metadata_path } => KilledView::Orphaned {
                pid: *pid,
                project_root: project_root@,
                metadata_path: metadata_path@,
            },
        }
    }
}

impl KilledService {
    pub fn group(&self) -> (pid: u32)
        ensures
            pid == self@.group(),
    {
        match self {
            KilledService::LaunchAgent { pid } => *pid,
            KilledService::Recorded { pid, .. } => *pid,
            KilledService::Process { pid, .. } => *pid,
            KilledService::Orphaned { pid, .. } => *pid,
        }
    }
}

/// The account of ending all services: those that were ended, each group once,
/// and the records of services that were gone.
#[derive(Debug)]
pub struct KillReport {
    killed: Vec<KilledService>,
    stale: Vec<String>,
}

/// What each service of a list is.
pub open spec fn killed_views(list: Seq<KilledService>) -> Seq<KilledView> {
    list.map_values(|service: KilledService| service@)
}

/// A group is among the services that were ended.
pub open spec fn group_killed(killed: Seq<KilledView>, group: u32) -> bool {
    exists|i: int| 0 <= i < killed.len() && #[trigger] killed[i].group() == group
}

/// The services that were ended, with one more where its group is new.
pub open spec fn with_killed(killed: Seq<KilledView>, service: KilledView) -> Seq<KilledView> {
    if group_killed(killed, service.group()) {
        killed
    } else {
        killed.push(service)
    }
}

/// A service that is ended is reported, those that were reported before still
/// are, and no group is reported twice.
pub proof fn ended_services_are_reported_once(killed: Seq<KilledView>, service: KilledView)
    requires
        forall|i: int, j: int|
            0 <= i < j < killed.len() ==> #[trigger] killed[i].group()
                != #[trigger] killed[j].group(),
    ensures
        group_killed(with_killed(killed, service), service.group()),
        forall|group: u32|
            group_killed(killed, group) ==> #[trigger] group_killed(
                with_killed(killed, service),
                group,
            ),
        forall|i: int, j: int|
            0 <= i < j < with_killed(killed, service).len() ==> #[trigger] with_killed(
                killed,
                service,
            )[i].group() != #[trigger] with_killed(killed, service)[j].group(),
{
    let after = with_killed(killed, service);
    if !group_killed(killed, service.group()) {
        assert(after[killed.len() as int].group() == service.group());
        assert forall|group: u32| group_killed(killed, group) implies #[trigger] group_killed(
            after,
            group,
        ) by {
            let i = choose|i: int| 0 <= i < killed.len() && killed[i].group() == group;
            assert(after[i].group() == group);
        }
    }
}

/// A record's service as one that was ended.
pub open spec fn killed_record(metadata: ServiceMetadataView) -> KilledView {
    KilledView::Recorded {
        pid: metadata.pid,
        project_root: metadata.project_root,
        url: metadata.http_url,
    }
}

impl KillReport {
    /// The services that were ended.
    pub closed spec fn killed(self) -> Seq<KilledView> {
        killed_views(self.killed@)
    }

    /// The records of services that were gone.
    pub closed spec fn stale(self) -> Seq<Seq<char>> {
        views(self.stale@)
    }

    /// No group was ended twice.
    pub open spec fn well_formed(self) -> bool {
        forall|i: int, j: int|
            0 <= i < j < self.killed().len() ==> #[trigger] self.killed()[i].group()
                != #[trigger] self.killed()[j].group()
    }

    pub fn new() -> (report: KillReport)
        ensures
            report.well_formed(),
            report.killed() == Seq::<KilledView>::empty(),
            report.stale() == Seq::<Seq<char>>::empty(),
    {
        let report = KillReport { killed: Vec::new(), stale: Vec::new() };
        assert(report.killed() =~= Seq::empty());
        assert(report.stale() =~= Seq::empty());
        report
    }

    fn note(&mut self, service: KilledService) -> (noted: bool)
        requires
            old(self).well_formed(),
        ensures
            final(self).well_formed(),
            final(self).killed() == with_killed(old(self).killed(), service@),
            final(self).stale() == old(self).stale(),
            noted == !group_killed(old(self).killed(), service@.group()),
    {
        let group = service.group();
        let ghost before = self.killed();
        let mut i: usize = 0;
        while i < self.killed.len()
            invariant
                i <= self.killed@.len(),
                before == killed_views(self.killed@),
                *self == *old(self),
                old(self).well_formed(),
                before == old(self).killed(),
                group == service@.group(),
                forall|j: int| 0 <= j < i ==> #[trigger] before[j].group() != group,
            decreases self.killed@.len() - i,
        {
            assert(before[i as int] == self.killed@[i as int]@);
            if self.killed[i].group() == group {
                assert(before[i as int].group() == group);
                return false;
            }
            i += 1;
        }
        let ghost added = service@;
        self.killed.push(service);
        assert(self.killed() =~= before.push(added));
        true
    }

    /// Accounts for a LaunchAgent that was removed.
    pub fn kill_launch_agent(&mut self, pid: u32)
        requires
            old(self).well_formed(),
        ensures
            final(self).well_formed(),
            final(self).killed() == with_killed(old(self).killed(), KilledView::LaunchAgent { pid }),
            final(self).stale() == old(self).stale(),
    {
        let _ = self.note(KilledService::LaunchAgent { pid });
    }

    /// Accounts for the recorded service, and tells whether its group is to be
    /// ended: where its process is there.
    pub fn kill_recorded(&mut self, metadata: &ServiceMetadata, running: bool) -> (terminate: bool)
        requires
            old(self).well_formed(),
        ensures
            final(self).well_formed(),
            terminate == running,
            final(self).killed() == if running {
                with_killed(old(self).killed(), killed_record(metadata@))
            } else {
                old(self).killed()
            },
            final(self).stale() == old(self).stale(),
    {
        if running {
            let _ = self.note(
                KilledService::Recorded {
                    pid: metadata.pid,
                    project_root: metadata.project_root.clone(),
                    url: metadata.http_url.clone(),
                },
            );
        }
        running
    }

    /// Accounts for the record at a path, none where it cannot be read, and
    /// tells whether its group is to be ended: where its process is there. A
    /// record of a service that is gone is stale.
    pub fn kill_record_at(
        &mut self,
        path: &str,
        metadata: Option<&ServiceMetadata>,
        running: bool,
    ) -> (terminate: bool)
        requires
            old(self).well_formed(),
        ensures
            final(self).well_formed(),
            terminate == (metadata is Some && running),
            final(self).killed() == if terminate {
                with_killed(
                    old(self).killed(),
                    killed_record(option_metadata_view(metadata)->Some_0),
                )
            } else {
                old(self).killed()
            },
            final(self).stale() == if terminate {
                old(self).stale()
            } else {
                old(self).stale().push(path@)
            },
    {
        if let Some(record) = metadata {
            if running {
                return self.kill_recorded(record, true);
            }
        }
        push_text(&mut self.stale, path);
        assert(self.killed() =~= old(self).killed());
        false
    }

    /// Accounts for a service process, and tells whether its group is to be
    /// ended: where it was not ended before.
    pub fn kill_process(&mut self, process: &ServiceRunProcess) -> (terminate: bool)
        requires
            old(self).well_formed(),
        ensures
            final(self).well_formed(),
            terminate == !group_killed(old(self).killed(), process.pgid),
            final(self).killed() == with_killed(
                old(self).killed(),
                KilledView::Process { pid: process.pgid, metadata_path: process.metadata_path@ },
            ),
            final(self).stale() == old(self).stale(),
    {
        self.note(
            KilledService::Process {
                pid: process.pgid,
                metadata_path: process.metadata_path.clone(),
            },
        )
    }

    /// Accounts for an orphaned process that was ended.
    pub fn kill_orphan(&mut self, process: &WorkspaceServiceProcess)
        requires
            old(self).well_formed(),
        ensures
            final(self).well_formed(),
            final(self).killed() == with_killed(
                old(self).killed(),
                KilledView::Orphaned {
                    pid: process.pgid,
                    project_root: process.project_root@,
                    metadata_path: process.metadata_path@,
                },
            ),
            final(self).stale() == old(self).stale(),
    {
        let _ = self.note(
            KilledService::Orphaned {
                pid: process.pgid,
                project_root: process.project_root.clone(),
                metadata_path: process.metadata_path.clone(),
            },
        );
    }

    /// The services that were ended.
    pub fn killed_services(&self) -> (list: &Vec<KilledService>)
        ensures
            killed_views(list@) == self.killed(),
    {
        &self.killed
    }

    /// The number of records of services that were gone.
    pub fn stale_count(&self) -> (count: usize)
        ensures
            count == self.stale().len(),
    {
        self.stale.len()
    }
}

/// The arguments of `kill` that send a signal to a process.
pub fn signal_process(pid: u32, signal: &str) -> (arguments: Vec<String>)
    ensures
        views(arguments@) == seq!["-"@ + signal@, decimal(pid as nat)],
{
    let mut name = owned("-");
    name.append(signal);
    let mut arguments: Vec<String> = Vec::new();
    push_text(&mut arguments, name.as_str());
    push_text(&mut arguments, decimal_text(pid as u64).as_str());
    assert(views(arguments@) =~= seq!["-"@ + signal@, decimal(pid as nat)]);
    arguments
}

/// The arguments of `kill` that send a signal to a group of processes.
pub fn signal_process_group(pgid: u32, signal: &str) -> (arguments: Vec<String>)
    ensures
        views(arguments@) == seq!["-"@ + signal@, "--"@, "-"@ + decimal(pgid as nat)],
{
    let mut name = owned("-");
    name.append(signal);
    let mut group = owned("-");
    group.append(decimal_text(pgid as u64).as_str());
    let mut arguments: Vec<String> = Vec::new();
    push_text(&mut arguments, name.as_str());
    push_text(&mut arguments, "--");
    push_text(&mut arguments, group.as_str());
    assert(views(arguments@) =~= seq!["-"@ + signal@, "--"@, "-"@ + decimal(pgid as nat)]);
    arguments
}

/// How far the ending of a process group has come.
#[derive(Clone, Copy, Debug, PartialEq, Eq, Structural)]
pub enum Termination {
    /// Nothing was done yet.
    Running,
    /// The group was asked to end.
    Asked,
    /// The group was made to end.
    Forced,
}

/// What to do next about a group that is to end.
#[derive(Clone, Copy, Debug, PartialEq, Eq, Structural)]
pub enum TerminationStep {
    /// Send the signal `TERM` and wait so long for the process to be gone.
    Ask { wait_ms: u64 },
    /// Send the signal `KILL` and wait so long for the process to be gone.
    Force { wait_ms: u64 },
    /// Nothing is left to do.
    Finished,
}

/// What to do next about a group that is to end: it is asked first, and forced
/// only where it is still there after the time that it was given.
pub open spec fn termination_step(
    stage: Termination,
    gone: bool,
    timeout_ms: u64,
    kill_timeout_ms: u64,
) -> TerminationStep {
    match stage {
        Termination::Running => TerminationStep::Ask { wait_ms: timeout_ms },
        Termination::Asked => if gone {
            TerminationStep::Finished
        } else {
            TerminationStep::Force { wait_ms: kill_timeout_ms }
        },
        Termination::Forced => TerminationStep::Finished,
    }
}

/// The exit code that Windows gives of a process that still runs.
pub const STILL_ACTIVE: u32 = 259;

/// The error of Windows that a process belongs to another user.
pub const ERROR_ACCESS_DENIED: u32 = 5;

/// A process lives on Windows.
pub open spec fn lives_on_windows(
    opened: bool,
    exit_code: Option<u32>,
    error: Option<u32>,
) -> bool {
    (opened && exit_code == Some(STILL_ACTIVE)) || (!opened && error == Some(ERROR_ACCESS_DENIED))
}

/// A process that could be opened lives where it has no exit code of its own yet; one
/// that could not lives only where it belongs to another user.
pub proof fn processes_live_until_they_exit(exit_code: u32, error: u32)
    ensures
        lives_on_windows(true, Some(exit_code), None) <==> exit_code == 259,
        lives_on_windows(true, None, Some(error)) == false,
        lives_on_windows(false, None, Some(error)) <==> error == 5,
        lives_on_windows(false, Some(exit_code), None) == false,
{
}

/// Tells whether a process lives on Windows. `opened` tells whether it could be
/// opened, `exit_code` is what was learnt of it then, and `error` why it could not
/// be opened: a process of another user cannot, but lives.
pub fn windows_process_exists(opened: bool, exit_code: Option<u32>, error: Option<u32>) -> (result:
    bool)
    ensures
        result == lives_on_windows(opened, exit_code, error),
        result == if opened {
            exit_code == Some(259u32)
        } else {
            error == Some(5u32)
        },
{
    if opened {
        match exit_code {
            Some(code) => code == STILL_ACTIVE,
            None => false,
        }
    } else {
        match error {
            Some(code) => code == ERROR_ACCESS_DENIED,
            None => false,
        }
    }
}

/// What to do next about a group that is to end, and how far its ending has come
/// then. `gone` tells whether the process is gone after the last wait.
pub fn terminate_process_group(
    stage: Termination,
    gone: bool,
    timeout_ms: u64,
    kill_timeout_ms: u64,
) -> (next: (TerminationStep, Termination))
    ensures
        next.0 == termination_step(stage, gone, timeout_ms, kill_timeout_ms),
        next.1 == match stage {
            Termination::Running => Termination::Asked,
            _ => Termination::Forced,
        },
{
    match stage {
        Termination::Running => (TerminationStep::Ask { wait_ms: timeout_ms }, Termination::Asked),
        Termination::Asked => if gone {
            (TerminationStep::Finished, Termination::Forced)
        } else {
            (TerminationStep::Force { wait_ms: kill_timeout_ms }, Termination::Forced)
        },
        Termination::Forced => (TerminationStep::Finished, Termination::Forced),
    }
}

/// A process that is gone once it was asked to end is never made to.
pub proof fn only_survivors_are_forced(
    stage: Termination,
    gone: bool,
    timeout_ms: u64,
    kill_timeout_ms: u64,
)
    ensures
        termination_step(stage, gone, timeout_ms, kill_timeout_ms) is Force ==> stage
            == Termination::Asked && !gone,
{
}

/// The arguments with which `taskkill` ends a process of Windows and all that it
/// started: there are no groups and no signals there.
pub open spec fn taskkill_list(pid: u32) -> Seq<Seq<char>> {
    seq!["/PID"@, decimal(pid as nat), "/T"@, "/F"@]
}

/// The time that a process of Windows is waited for, which is made to end at once:
/// both times that a process may be given.
pub open spec fn windows_wait(timeout_ms: u64, kill_timeout_ms: u64) -> u64 {
    if timeout_ms + kill_timeout_ms > u64::MAX {
        u64::MAX
    } else {
        (timeout_ms + kill_timeout_ms) as u64
    }
}

/// How a process of Windows is ended together with all that it started: the
/// arguments of one call of `taskkill`, and the time that the process is waited for
/// then.
pub fn windows_termination(pid: u32, timeout_ms: u64, kill_timeout_ms: u64) -> (call: (
    Vec<String>,
    u64,
))
    ensures
        views(call.0@) == taskkill_list(pid),
        call.1 == windows_wait(timeout_ms, kill_timeout_ms),
{
    let mut arguments: Vec<String> = Vec::new();
    push_text(&mut arguments, "/PID");
    push_text(&mut arguments, decimal_text(pid as u64).as_str());
    push_text(&mut arguments, "/T");
    push_text(&mut arguments, "/F");
    assert(views(arguments@) =~= taskkill_list(pid));
    let wait_ms: u64 = if timeout_ms > u64::MAX - kill_timeout_ms {
        u64::MAX
    } else {
        timeout_ms + kill_timeout_ms
    };
    (arguments, wait_ms)
}

/// The record at a process's path decides whether it is current, and of several
/// the last: where that one names the project and the group of the process, it is
/// current, else it is not, whatever other records there are.
pub proof fn last_record_decides(
    process: WorkspaceProcessView,
    records: Seq<WorkspaceRecordView>,
    i: int,
)
    requires
        0 <= i < records.len(),
        paths_equal(records[i].metadata_path, process.metadata_path, false),
        forall|j: int|
            i < j < records.len() ==> !paths_equal(
                #[trigger] records[j].metadata_path,
                process.metadata_path,
                false,
            ),
    ensures
        is_current(process, records) <==> paths_equal(
            records[i].project_root,
            process.project_root,
            false,
        ) && records[i].pid == process.pgid,
{
    lemma_record_at(records, process.metadata_path, i);
}

proof fn lemma_record_at(records: Seq<WorkspaceRecordView>, path: Seq<char>, i: int)
    requires
        -1 <= i < records.len(),
        i >= 0 ==> paths_equal(records[i].metadata_path, path, false),
        forall|j: int|
            i < j < records.len() ==> !paths_equal(
                #[trigger] records[j].metadata_path,
                path,
                false,
            ),
    ensures
        record_at(records, path) == if i >= 0 {
            Some(records[i])
        } else {
            None
        },
    decreases records.len(),
{
    if records.len() > 0 && i < records.len() - 1 {
        let front = records.drop_last();
        assert(records.last() == records[records.len() - 1]);
        assert forall|j: int| i < j < front.len() implies !paths_equal(
            #[trigger] front[j].metadata_path,
            path,
            false,
        ) by {
            assert(front[j] == records[j]);
        }
        lemma_record_at(front, path, i);
    }
}

/// A process without a record at its path is not current.
pub proof fn unrecorded_processes_are_not_current(
    process: WorkspaceProcessView,
    records: Seq<WorkspaceRecordView>,
)
    requires
        forall|j: int|
            0 <= j < records.len() ==> !paths_equal(
                #[trigger] records[j].metadata_path,
                process.metadata_path,
                false,
            ),
    ensures
        !is_current(process, records),
{
    lemma_record_at(records, process.metadata_path, -1);
}

/// A process that its own record names is never ended as orphaned, whatever other
/// processes and records there are.
pub proof fn named_processes_are_kept(
    processes: Seq<WorkspaceProcessView>,
    project_root: Option<Seq<char>>,
    records: Seq<WorkspaceRecordView>,
    process: WorkspaceProcessView,
    i: int,
)
    requires
        0 <= i < records.len(),
        paths_equal(records[i].metadata_path, process.metadata_path, false),
        paths_equal(records[i].project_root, process.project_root, false),
        records[i].pid == process.pgid,
        forall|j: int|
            i < j < records.len() ==> !paths_equal(
                #[trigger] records[j].metadata_path,
                process.metadata_path,
                false,
            ),
    ensures
        !orphans(processes, project_root, records).contains(process),
{
    last_record_decides(process, records, i);
    orphans_are_exact(processes, project_root, records);
}

/// What is ended as orphaned was listed, belongs to the project where one is given,
/// and is the first orphaned process of its group.
pub proof fn orphans_are_listed_processes(
    processes: Seq<WorkspaceProcessView>,
    project_root: Option<Seq<char>>,
    records: Seq<WorkspaceRecordView>,
    k: int,
)
    requires
        0 <= k < orphans(processes, project_root, records).len(),
    ensures
        ({
            let ended = orphans(processes, project_root, records)[k];
            &&& project_root matches Some(root) ==> paths_equal(ended.project_root, root, false)
            &&& !is_current(ended, records)
            &&& exists|i: int|
                0 <= i < processes.len() && #[trigger] processes[i] == ended && forall|j: int|
                    0 <= j < i && #[trigger] processes[j].pgid == ended.pgid ==> !is_orphan(
                        processes[j],
                        project_root,
                        records,
                    )
        }),
    decreases processes.len(),
{
    let front = processes.drop_last();
    let before = orphans(front, project_root, records);
    let ended = orphans(processes, project_root, records)[k];
    orphans_are_exact(processes, project_root, records);
    assert(is_orphan(ended, project_root, records));
    if k < before.len() {
        orphans_are_listed_processes(front, project_root, records, k);
        let i = choose|i: int|
            0 <= i < front.len() && #[trigger] front[i] == ended && forall|j: int|
                0 <= j < i && #[trigger] front[j].pgid == ended.pgid ==> !is_orphan(
                    front[j],
                    project_root,
                    records,
                );
        assert(processes[i] == ended);
        assert forall|j: int| 0 <= j < i && #[trigger] processes[j].pgid == ended.pgid implies
            !is_orphan(processes[j], project_root, records) by {
            assert(front[j] == processes[j]);
        }
    } else {
        let last = processes.len() - 1;
        assert(processes[last] == ended);
        orphans_are_exact(front, project_root, records);
        assert forall|j: int| 0 <= j < last && #[trigger] processes[j].pgid
            == ended.pgid implies !is_orphan(processes[j], project_root, records) by {
            assert(front[j] == processes[j]);
        }
    }
}

/// A process that no record names is ended, or one of its group is, where it belongs
/// to the project or none is given.
pub proof fn unnamed_processes_are_ended(
    processes: Seq<WorkspaceProcessView>,
    project_root: Option<Seq<char>>,
    records: Seq<WorkspaceRecordView>,
    i: int,
)
    requires
        0 <= i < processes.len(),
        !is_current(processes[i], records),
        project_root matches Some(root) ==> paths_equal(processes[i].project_root, root, false),
    ensures
        exists|k: int|
            0 <= k < orphans(processes, project_root, records).len() && #[trigger] orphans(
                processes,
                project_root,
                records,
            )[k].pgid == processes[i].pgid,
{
    orphans_are_exact(processes, project_root, records);
    assert(is_orphan(processes[i], project_root, records));
}

/// Every process that is found was shown by a line, and lines that show none add
/// none.
pub proof fn found_processes_are_shown(
    lines: Seq<Seq<char>>,
    read: spec_fn(Seq<char>) -> Option<RunProcessView>,
    k: int,
)
    requires
        0 <= k < processes_of_lines(lines, read).len(),
    ensures
        processes_of_lines(lines, read).len() <= lines.len(),
        exists|i: int|
            k <= i < lines.len() && read(#[trigger] lines[i]) == Some(
                processes_of_lines(lines, read)[k],
            ),
    decreases lines.len(),
{
    let front = lines.drop_last();
    let before = processes_of_lines(front, read);
    if before.len() > 0 {
        found_processes_are_shown(front, read, 0);
    }
    if k < before.len() {
        found_processes_are_shown(front, read, k);
        let i = choose|i: int|
            k <= i < front.len() && read(#[trigger] front[i]) == Some(before[k]);
        assert(lines[i] == front[i]);
    } else {
        assert(lines[lines.len() - 1] == lines.last());
    }
}

/// The process of each line that shows one of a workspace is found.
pub proof fn workspace_processes_are_found(lines: Seq<Seq<char>>, i: int)
    requires
        0 <= i < lines.len(),
        workspace_process_of_line(lines[i]) is Some,
    ensures
        workspace_processes_of_lines(lines).contains(
            workspace_process_of_line(lines[i])->Some_0,
        ),
    decreases lines.len(),
{
    let front = lines.drop_last();
    let all = workspace_processes_of_lines(lines);
    let before = workspace_processes_of_lines(front);
    if i < front.len() {
        workspace_processes_are_found(front, i);
        let process = workspace_process_of_line(lines[i])->Some_0;
        let k = choose|k: int| 0 <= k < before.len() && before[k] == process;
        assert(all[k] == process);
    } else {
        assert(all[all.len() - 1] == workspace_process_of_line(lines[i])->Some_0);
    }
}

/// The fields of a line are taken off one after the other: a number and what follows
/// it.
pub proof fn lemma_number_field(padding: Seq<char>, number: u32, rest: Seq<char>)
    requires
        rest.len() > 0,
        rest[0] == ' ',
        forall|k: int| 0 <= k < padding.len() ==> white_space(#[trigger] padding[k]),
    ensures
        ps_field(padding + (decimal(number as nat) + rest)) == Some(
            (decimal(number as nat), rest),
        ),
        process_number(decimal(number as nat)) == Some(number),
{
    let digits = decimal(number as nat);
    let line = digits + rest;
    decimal_reads_back(number as nat, u32::MAX as nat);
    lemma_decimal_digits(number as nat);
    assert forall|k: int| 0 <= k < digits.len() implies !white_space(#[trigger] digits[k]) by {
        assert(is_digit(digits[k]));
    }
    assert(line[0] == digits[0]);
    lemma_trimmed_padding(padding, line);
    lemma_index_where(line, 0, white_space_chars());
    let end = index_where(line, 0, white_space_chars());
    assert(line[digits.len() as int] == ' ');
    if end < digits.len() {
        assert(line[end] == digits[end]);
    }
    if end > digits.len() {
        assert(white_space_chars()(line[digits.len() as int]));
    }
    assert(line.subrange(0, end) =~= digits);
    assert(line.skip(end) =~= rest);
}

/// The numbers of a workspace's process are those that its line gives, in the order
/// process, parent, group; its project and its record are what stands behind their
/// flags.
pub proof fn workspace_lines_give_their_numbers(
    padding: Seq<char>,
    pid: u32,
    ppid: u32,
    pgid: u32,
    command: Seq<char>,
)
    requires
        forall|k: int| 0 <= k < padding.len() ==> white_space(#[trigger] padding[k]),
        command.len() > 0,
        command[0] == ' ',
    ensures
        ({
            let line = padding + (decimal(pid as nat) + (" "@ + (decimal(ppid as nat) + (" "@ + (
            decimal(pgid as nat) + command)))));
            match workspace_process_of_line(line) {
                Some(process) => {
                    &&& process.pid == pid
                    &&& process.ppid == ppid
                    &&& process.pgid == pgid
                    &&& value_after(command, "--project-root"@) == Some(process.project_root)
                    &&& value_after(command, "--metadata-path"@) == Some(process.metadata_path)
                    &&& contains_text(command, " service run "@)
                    &&& contains_text(command, " --metadata-path "@)
                    &&& contains_text(command, " --server-kind workspace"@)
                },
                None => value_after(command, "--project-root"@) is None || value_after(
                    command,
                    "--metadata-path"@,
                ) is None || !contains_text(command, " service run "@) || !contains_text(
                    command,
                    " --metadata-path "@,
                ) || !contains_text(command, " --server-kind workspace"@),
            }
        }),
{
    reveal_strlit(" ");
    let third = decimal(pgid as nat) + command;
    let second = decimal(ppid as nat) + (" "@ + third);
    lemma_number_field(padding, pid, " "@ + second);
    lemma_number_field(" "@, ppid, " "@ + third);
    lemma_number_field(" "@, pgid, command);
}

/// The value behind a flag stands in the command line behind that flag, is not
/// blank, has no white space around it, and goes no further than the next flag.
pub proof fn values_stand_behind_their_flag(command: Seq<char>, flag: Seq<char>)
    requires
        value_after(command, flag) is Some,
    ensures
        ({
            let value = value_after(command, flag)->Some_0;
            &&& value.len() > 0
            &&& trimmed(value) == value
            &&& !contains_text(value, " --"@)
            &&& exists|at: int|
                #[trigger] occurs_at(command, " "@ + flag + " "@, at) && contains_text(
                    command.skip(at + (" "@ + flag + " "@).len()),
                    value,
                )
        }),
{
    let marker = " "@ + flag + " "@;
    let value = value_after(command, flag)->Some_0;
    lemma_find_from(command, marker, 0);
    let at = find_from(command, marker, 0)->Some_0;
    let rest = command.skip(at + marker.len());
    lemma_find_from(rest, " --"@, 0);
    let end: int = match find_from(rest, " --"@, 0) {
        Some(next) => next,
        None => rest.len() as int,
    };
    let kept = rest.take(end);
    let bounds = trimming_takes_white_space_alone(kept);
    trimming_is_idempotent(kept);
    assert(rest.subrange(bounds.0, bounds.0 + value.len()) =~= value);
    assert(occurs_at(rest, value, bounds.0));
    if contains_text(value, " --"@) {
        reveal_strlit(" --");
        let inside = choose|i: int| occurs_at(value, " --"@, i);
        let there = bounds.0 + inside;
        assert(rest.subrange(there, there + 3) =~= value.subrange(inside, inside + 3));
        assert(occurs_at(rest, " --"@, there));
    }
}

/// A process is asked to end first, is given the time that it may take, and is made
/// to end after that alone, with its own time; one that is gone is left alone, and
/// nothing is done after that.
pub proof fn processes_are_given_their_time(
    stage: Termination,
    gone: bool,
    timeout_ms: u64,
    kill_timeout_ms: u64,
)
    ensures
        ({
            let step = termination_step(stage, gone, timeout_ms, kill_timeout_ms);
            &&& step matches TerminationStep::Ask { wait_ms } ==> wait_ms == timeout_ms
            &&& step matches TerminationStep::Force { wait_ms } ==> wait_ms == kill_timeout_ms
            &&& stage is Running <==> step is Ask
            &&& stage is Asked && !gone <==> step is Force
            &&& stage is Forced ==> step is Finished
        }),
{
}

/// A process of Windows is waited for as long as both times come to, and never for
/// less than one of them; what ends it names the process, and ends what it started.
pub proof fn windows_processes_are_given_both_times(
    pid: u32,
    timeout_ms: u64,
    kill_timeout_ms: u64,
)
    ensures
        windows_wait(timeout_ms, kill_timeout_ms) >= timeout_ms,
        windows_wait(timeout_ms, kill_timeout_ms) >= kill_timeout_ms,
        windows_wait(timeout_ms, kill_timeout_ms) - timeout_ms <= kill_timeout_ms,
        windows_wait(timeout_ms, kill_timeout_ms) < u64::MAX ==> windows_wait(
            timeout_ms,
            kill_timeout_ms,
        ) - timeout_ms == kill_timeout_ms,
        has_pair(taskkill_list(pid), "/PID"@, decimal(pid as nat)),
        taskkill_list(pid).contains("/T"@),
        taskkill_list(pid).contains("/F"@),
{
    let list = taskkill_list(pid);
    assert(list[0] == "/PID"@ && list[1] == decimal(pid as nat) && list[2] == "/T"@ && list[3]
        == "/F"@);
}

/// What is told of a service that was ended is what its record says.
pub proof fn ended_records_are_told_of(metadata: ServiceMetadataView)
    ensures
        killed_record(metadata).group() == metadata.pid,
        killed_record(metadata) matches KilledView::Recorded { pid, project_root, url }
            && project_root == metadata.project_root && url == metadata.http_url && pid
            == metadata.pid,
{
}

/// A service is reported by what was ended last, where its group was not reported
/// before; a group that was is not reported again.
pub proof fn reports_grow_by_new_groups(killed: Seq<KilledView>, service: KilledView)
    ensures
        with_killed(killed, service).take(killed.len() as int) == killed,
        (forall|i: int| 0 <= i < killed.len() ==> #[trigger] killed[i].group() != service.group())
            ==> with_killed(killed, service).len() == killed.len() + 1 && with_killed(
            killed,
            service,
        ).last() == service,
        (exists|i: int| 0 <= i < killed.len() && #[trigger] killed[i].group() == service.group())
            ==> with_killed(killed, service) == killed,
{
    assert(with_killed(killed, service).take(killed.len() as int) =~= killed);
}

/// The contracts see all of a process, each field as what it is.
pub proof fn workspace_processes_are_seen_whole(process: WorkspaceServiceProcess)
    ensures
        process@.pid == process.pid,
        process@.ppid == process.ppid,
        process@.pgid == process.pgid,
        process@.project_root == process.project_root@,
        process@.metadata_path == process.metadata_path@,
{
}

/// The contracts see all of a record, each field as what it is.
pub proof fn workspace_records_are_seen_whole(record: WorkspaceRecord)
    ensures
        record@.metadata_path == record.metadata_path@,
        record@.project_root == record.project_root@,
        record@.pid == record.pid,
{
}

/// A line of Windows gives the number of a process in front of its tab, and behind it
/// the command line, in which the path of the record stands.
pub proof fn windows_lines_give_their_process(pid: u32, command: Seq<char>)
    requires
        command.len() > 0,
        !white_space(command.last()),
    ensures
        match windows_process_of_line(decimal(pid as nat) + "\t"@ + command) {
            Some(process) => {
                &&& process.pgid == pid
                &&& value_after(command, "--metadata-path"@) == Some(process.metadata_path)
                &&& contains_text(command, " service run "@)
                &&& contains_text(command, " --metadata-path "@)
            },
            None => value_after(command, "--metadata-path"@) is None || !contains_text(
                command,
                " service run "@,
            ) || !contains_text(command, " --metadata-path "@),
        },
{
    reveal_strlit("\t");
    let digits = decimal(pid as nat);
    let line = digits + "\t"@ + command;
    let tab = |c: char| c == '\t';
    lemma_decimal_digits(pid as nat);
    decimal_reads_back(pid as nat, u32::MAX as nat);
    assert(is_digit(digits[0]));
    assert(line[0] == digits[0] && line.last() == command.last());
    lemma_already_trimmed(line);
    let at: int = digits.len() as int;
    lemma_index_where(line, 0, tab);
    let found = index_where(line, 0, tab);
    assert(line[at] == '\t');
    if found < at {
        assert(is_digit(digits[found]));
        assert(line[found] == digits[found]);
    }
    if found > at {
        assert(!tab(line[at]));
    }
    assert(line.subrange(0, at) =~= digits);
    assert(line.skip(at + 1) =~= command);
}

/// The processes of two lists of lines are those of the first and then those of the
/// second, on every system and of workspaces too.
pub proof fn processes_keep_the_order_of_lines(
    front: Seq<Seq<char>>,
    back: Seq<Seq<char>>,
    windows: bool,
)
    ensures
        processes_of_lines(front + back, line_reader(windows)) == processes_of_lines(
            front,
            line_reader(windows),
        ) + processes_of_lines(back, line_reader(windows)),
        workspace_processes_of_lines(front + back) == workspace_processes_of_lines(front)
            + workspace_processes_of_lines(back),
    decreases back.len(),
{
    let read = line_reader(windows);
    if back.len() == 0 {
        assert(front + back =~= front);
        assert(processes_of_lines(front, read) + processes_of_lines(back, read)
            =~= processes_of_lines(front, read));
        assert(workspace_processes_of_lines(front) + workspace_processes_of_lines(back)
            =~= workspace_processes_of_lines(front));
    } else {
        processes_keep_the_order_of_lines(front, back.drop_last(), windows);
        assert((front + back).drop_last() =~= front + back.drop_last());
        assert((front + back).last() == back.last());
        assert(processes_of_lines(front + back, read) =~= processes_of_lines(front, read)
            + processes_of_lines(back, read));
        assert(workspace_processes_of_lines(front + back) =~= workspace_processes_of_lines(front)
            + workspace_processes_of_lines(back));
    }
}

/// A process is that of a service only where its command line runs one with a record.
pub proof fn service_processes_run_services(group: Seq<char>, command: Seq<char>, pgid: u32)
    ensures
        run_process(group, command) matches Some(process) ==> {
            &&& contains_text(command, " service run "@)
            &&& contains_text(command, " --metadata-path "@)
            &&& value_after(command, "--metadata-path"@) == Some(process.metadata_path)
            &&& process_number(group) == Some(process.pgid)
        },
        contains_text(command, " service run "@) && contains_text(command, " --metadata-path "@)
            && value_after(command, "--metadata-path"@) is Some ==> (run_process(
            decimal(pgid as nat),
            command,
        ) matches Some(process) && process.pgid == pgid),
{
    decimal_reads_back(pgid as nat, u32::MAX as nat);
}

} // verus!
