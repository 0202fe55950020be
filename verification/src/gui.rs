//! The state of the cover window and how it answers the user's actions and
//! the progress reports of a running job.

use vstd::prelude::*;

use crate::plan::{parse_regions, regions_of};
use crate::text::{owned, push_char};
use crate::utils::DriveInfo;

verus! {

/// A report sent by the worker that processes a drive.
#[derive(Debug, Clone, PartialEq, Eq)]
pub enum GuiMessage {
    /// A line for the log.
    Log(String),
    /// ROMs handled so far and ROMs in all.
    Progress(usize, usize),
    /// The job has finished.
    Done,
}

/// What a started job works on.
pub struct ProcessingJob {
    pub drive_path: String,
    pub overwrite: bool,
    pub regions: Vec<String>,
    pub output_format: String,
}

/// The window's state: the options, the log, the progress of the running
/// job and the drives to choose from.
pub struct GuiApp {
    overwrite: bool,
    regions: String,
    output_format: String,
    processing: bool,
    logs: Vec<String>,
    progress: (usize, usize),
    drives: Vec<DriveInfo>,
    selected_drive: usize,
}

/// The window's state as values.
pub struct GuiView {
    pub overwrite: bool,
    pub regions: Seq<char>,
    pub output_format: Seq<char>,
    pub processing: bool,
    pub logs: Seq<Seq<char>>,
    pub progress: (usize, usize),
    pub drives: Seq<(Seq<char>, bool)>,
    pub selected_drive: usize,
}

/// Drives as (path, has `_pico`) pairs.
pub open spec fn drives_view(drives: Seq<DriveInfo>) -> Seq<(Seq<char>, bool)> {
    drives.map_values(|d: DriveInfo| (d.path@, d.has_pico))
}

/// Log lines as character sequences.
pub open spec fn lines_view(lines: Seq<String>) -> Seq<Seq<char>> {
    lines.map_values(|l: String| l@)
}

/// The drive first selected among `drives`: the first that holds a `_pico`
/// folder, or the first drive when none does.
pub open spec fn initial_selection(drives: Seq<(Seq<char>, bool)>, selected: int) -> bool {
    ||| (0 <= selected < drives.len() && drives[selected].1 && forall|j: int|
        0 <= j < selected ==> !(#[trigger] drives[j]).1)
    ||| (selected == 0 && forall|j: int| 0 <= j < drives.len() ==> !(#[trigger] drives[j]).1)
}

/// The message logged when a job is asked for with no drive to work on.
pub open spec fn no_drives_message() -> Seq<char> {
    "No drives detected. Please insert a micro SD card and refresh."@
}

/// The message logged when a job finishes.
pub open spec fn complete_message() -> Seq<char> {
    "Processing complete."@
}

impl View for GuiApp {
    type V = GuiView;

    closed spec fn view(&self) -> GuiView {
        GuiView {
            overwrite: self.overwrite,
            regions: self.regions@,
            output_format: self.output_format@,
            processing: self.processing,
            logs: lines_view(self.logs@),
            progress: self.progress,
            drives: drives_view(self.drives@),
            selected_drive: self.selected_drive,
        }
    }
}

impl GuiApp {
    /// The selected drive is a listed one whenever drives are listed, and
    /// the first position otherwise.
    #[verifier::type_invariant]
    spec fn selection_in_range(self) -> bool {
        self.selected_drive == 0 || self.selected_drive < self.drives@.len()
    }

    /// The state the window opens with: overwriting off, the regions
    /// "EN,US,JP,EU", PNG output, no job, an empty log, and the first
    /// drive holding a `_pico` folder selected.
    pub fn new(drives: Vec<DriveInfo>) -> (r: GuiApp)
        ensures
            !r@.overwrite,
            r@.regions == "EN,US,JP,EU"@,
            r@.output_format == "png"@,
            !r@.processing,
            r@.logs == Seq::<Seq<char>>::empty(),
            r@.progress == (0usize, 0usize),
            r@.drives == drives_view(drives@),
            initial_selection(r@.drives, r@.selected_drive as int),
    {
        let n = drives.len();
        let mut i: usize = 0;
        while i < n && !drives[i].has_pico
            invariant
                n == drives@.len(),
                i <= n,
                forall|j: int| 0 <= j < i ==> !(#[trigger] drives@[j]).has_pico,
            decreases n - i,
        {
            i = i + 1;
        }
        let selected = if i < n {
            i
        } else {
            0
        };
        let app = GuiApp {
            overwrite: false,
            regions: owned("EN,US,JP,EU"),
            output_format: owned("png"),
            processing: false,
            logs: Vec::new(),
            progress: (0, 0),
            drives,
            selected_drive: selected,
        };
        proof {
            let dv = drives_view(app.drives@);
            assert forall|j: int| 0 <= j < dv.len() implies (#[trigger] dv[j]).1 == app.drives@[j].has_pico by {}
            assert(lines_view(app.logs@) =~= Seq::<Seq<char>>::empty());
        }
        app
    }

    /// Appends a line to the log.
    pub fn add_log(&mut self, msg: String)
        ensures
            final(self)@.logs == old(self)@.logs.push(msg@),
            final(self)@.drives == old(self)@.drives,
            final(self)@.selected_drive == old(self)@.selected_drive,
            final(self)@.processing == old(self)@.processing,
            final(self)@.progress == old(self)@.progress,
            final(self)@.overwrite == old(self)@.overwrite,
            final(self)@.regions == old(self)@.regions,
            final(self)@.output_format == old(self)@.output_format,
    {
        proof {
            use_type_invariant(&*self);
        }
        let mut logs: Vec<String> = Vec::new();
        std::mem::swap(&mut logs, &mut self.logs);
        logs.push(msg);
        self.logs = logs;
        assert(lines_view(self.logs@) =~= lines_view(old(self).logs@).push(msg@));
    }

    /// Replaces the drive list with a freshly detected one; the selection
    /// is kept while it still names a listed drive and goes back to the
    /// first drive otherwise.
    pub fn refresh_drives(&mut self, drives: Vec<DriveInfo>)
        ensures
            final(self)@.drives == drives_view(drives@),
            final(self)@.selected_drive == (if old(self)@.selected_drive < drives@.len() {
                old(self)@.selected_drive
            } else {
                0
            }),
            final(self)@.logs == old(self)@.logs,
            final(self)@.processing == old(self)@.processing,
            final(self)@.progress == old(self)@.progress,
            final(self)@.overwrite == old(self)@.overwrite,
            final(self)@.regions == old(self)@.regions,
            final(self)@.output_format == old(self)@.output_format,
    {
        proof {
            use_type_invariant(&*self);
        }
        let selected = if self.selected_drive >= drives.len() {
            0
        } else {
            self.selected_drive
        };
        self.selected_drive = 0;
        self.drives = drives;
        self.selected_drive = selected;
    }

    /// Selects the drive at `index` when there is one there; otherwise the
    /// selection stays.
    pub fn select_drive(&mut self, index: usize)
        ensures
            final(self)@.selected_drive == (if index < old(self)@.drives.len() {
                index
            } else {
                old(self)@.selected_drive
            }),
            final(self)@.drives == old(self)@.drives,
            final(self)@.logs == old(self)@.logs,
            final(self)@.processing == old(self)@.processing,
            final(self)@.progress == old(self)@.progress,
            final(self)@.overwrite == old(self)@.overwrite,
            final(self)@.regions == old(self)@.regions,
            final(self)@.output_format == old(self)@.output_format,
    {
        proof {
            use_type_invariant(&*self);
        }
        if index < self.drives.len() {
            self.selected_drive = index;
        }
    }

    /// Sets whether existing covers are overwritten.
    pub fn set_overwrite(&mut self, overwrite: bool)
        ensures
            final(self)@ == (GuiView { overwrite, ..old(self)@ }),
    {
        proof {
            use_type_invariant(&*self);
        }
        self.overwrite = overwrite;
    }

    /// Sets the comma-separated region list.
    pub fn set_regions(&mut self, regions: String)
        ensures
            final(self)@ == (GuiView { regions: regions@, ..old(self)@ }),
    {
        proof {
            use_type_invariant(&*self);
        }
        self.regions = regions;
    }

    /// Sets the output format.
    pub fn set_output_format(&mut self, output_format: String)
        ensures
            final(self)@ == (GuiView { output_format: output_format@, ..old(self)@ }),
    {
        proof {
            use_type_invariant(&*self);
        }
        self.output_format = output_format;
    }

    /// Whether a job can be started: none is running and a drive is listed.
    pub fn can_start(&self) -> (r: bool)
        ensures
            r == (!self@.processing && self@.drives.len() > 0),
    {
        !self.processing && self.drives.len() > 0
    }

    /// Starts a job on the selected drive. With no drive listed, only a
    /// line saying so is logged and no job is returned; otherwise the log is
    /// cleared, the progress reset, the window marked busy, and the job
    /// carries the drive's path, the overwrite option, the regions read
    /// from the region list and the output format.
    pub fn start_processing(&mut self) -> (r: Option<ProcessingJob>)
        ensures
            old(self)@.drives.len() == 0 ==> r is None && final(self)@ == (GuiView {
                logs: old(self)@.logs.push(no_drives_message()),
                ..old(self)@
            }),
            old(self)@.drives.len() > 0 ==> r is Some && final(self)@ == (GuiView {
                processing: true,
                logs: Seq::<Seq<char>>::empty(),
                progress: (0usize, 0usize),
                ..old(self)@
            }),
            r matches Some(job) ==> {
                &&& old(self)@.selected_drive < old(self)@.drives.len()
                &&& job.drive_path@ == old(self)@.drives[old(self)@.selected_drive as int].0
                &&& job.overwrite == old(self)@.overwrite
                &&& job.regions@.len() == regions_of(old(self)@.regions).len()
                &&& forall|i: int|
                    0 <= i < job.regions@.len() ==> #[trigger] job.regions@[i]@ == regions_of(
                        old(self)@.regions,
                    )[i]
                &&& job.output_format@ == old(self)@.output_format
            },
    {
        proof {
            use_type_invariant(&*self);
        }
        if self.drives.len() == 0 {
            self.add_log(owned("No drives detected. Please insert a micro SD card and refresh."));
            return None;
        }
        let drive_path = self.drives[self.selected_drive].path.clone();
        let regions = parse_regions(self.regions.as_str());
        let job = ProcessingJob {
            drive_path,
            overwrite: self.overwrite,
            regions,
            output_format: self.output_format.clone(),
        };
        self.processing = true;
        self.logs = Vec::new();
        self.progress = (0, 0);
        proof {
            assert(lines_view(self.logs@) =~= Seq::<Seq<char>>::empty());
        }
        Some(job)
    }

    /// Takes in a report of the running job: a log line is appended, a
    /// progress report replaces the progress, and the end of the job marks
    /// the window idle and logs that processing is complete.
    pub fn apply_message(&mut self, msg: GuiMessage)
        ensures
            msg matches GuiMessage::Log(s) ==> final(self)@ == (GuiView {
                logs: old(self)@.logs.push(s@),
                ..old(self)@
            }),
            msg matches GuiMessage::Progress(current, total) ==> final(self)@ == (GuiView {
                progress: (current, total),
                ..old(self)@
            }),
            msg is Done ==> final(self)@ == (GuiView {
                processing: false,
                logs: old(self)@.logs.push(complete_message()),
                ..old(self)@
            }),
    {
        proof {
            use_type_invariant(&*self);
        }
        match msg {
            GuiMessage::Log(s) => self.add_log(s),
            GuiMessage::Progress(current, total) => {
                self.progress = (current, total);
            },
            GuiMessage::Done => {
                self.processing = false;
                self.add_log(owned("Processing complete."));
            },
        }
    }

    /// Whether existing covers are overwritten.
    pub fn overwrite(&self) -> (r: bool)
        ensures
            r == self@.overwrite,
    {
        self.overwrite
    }

    /// The comma-separated region list.
    pub fn regions(&self) -> (r: &String)
        ensures
            r@ == self@.regions,
    {
        &self.regions
    }

    /// The output format.
    pub fn output_format(&self) -> (r: &String)
        ensures
            r@ == self@.output_format,
    {
        &self.output_format
    }

    /// Whether a job is running.
    pub fn processing(&self) -> (r: bool)
        ensures
            r == self@.processing,
    {
        self.processing
    }

    /// The log lines, oldest first.
    pub fn logs(&self) -> (r: &Vec<String>)
        ensures
            lines_view(r@) == self@.logs,
    {
        &self.logs
    }

    /// ROMs handled so far and ROMs in all.
    pub fn progress(&self) -> (r: (usize, usize))
        ensures
            r == self@.progress,
    {
        self.progress
    }

    /// The drives to choose from.
    pub fn drives(&self) -> (r: &Vec<DriveInfo>)
        ensures
            drives_view(r@) == self@.drives,
    {
        &self.drives
    }

    /// The position of the selected drive, which names a listed drive
    /// whenever any is listed.
    pub fn selected_drive(&self) -> (r: usize)
        ensures
            r == self@.selected_drive,
            r == 0 || r < self@.drives.len(),
    {
        proof {
            use_type_invariant(&*self);
        }
        self.selected_drive
    }
}

/// The decimal digit character for `d < 10`.
pub open spec fn digit_char(d: nat) -> char {
    ((48 + d) as u8) as char
}

/// The decimal numeral of `n`, without leading zeros.
pub open spec fn decimal_of(n: nat) -> Seq<char>
    decreases n,
{
    if n < 10 {
        seq![digit_char(n)]
    } else {
        decimal_of(n / 10).push(digit_char(n % 10))
    }
}

/// The decimal numeral of `n`.
pub fn decimal(n: usize) -> (r: String)
    ensures
        r@ == decimal_of(n as nat),
    decreases n,
{
    let d = (n % 10) as u8;
    let c = (48u8 + d) as char;
    if n < 10 {
        let mut s = String::new();
        push_char(&mut s, c);
        assert(s@ =~= decimal_of(n as nat));
        s
    } else {
        let mut s = decimal(n / 10);
        push_char(&mut s, c);
        s
    }
}

/// The reports a job sends before processing its first ROM: the drive
/// being scanned, the number of ROMs found, and a progress of none done.
pub fn job_start_messages(drive_path: &str, total: usize) -> (r: Vec<GuiMessage>)
    ensures
        r@.len() == 3,
        r@[0] matches GuiMessage::Log(s) && s@ == "Scanning drive: "@ + drive_path@,
        r@[1] matches GuiMessage::Log(s) && s@ == "Found "@ + decimal_of(total as nat) + " ROMs"@,
        r@[2] == GuiMessage::Progress(0, total),
{
    let mut scanning = owned("Scanning drive: ");
    scanning.append(drive_path);
    let mut found = owned("Found ");
    found.append(decimal(total).as_str());
    found.append(" ROMs");
    let mut messages: Vec<GuiMessage> = Vec::new();
    messages.push(GuiMessage::Log(scanning));
    messages.push(GuiMessage::Log(found));
    messages.push(GuiMessage::Progress(0, total));
    messages
}

/// The reports a job sends after the ROM at position `index` of `total`:
/// the ROM's report line (an error prefixed with "Error: ") and the
/// progress of `index + 1` done.
pub fn rom_report_messages(index: usize, total: usize, outcome: Result<String, String>) -> (r: Vec<GuiMessage>)
    requires
        index < total,
    ensures
        r@.len() == 2,
        outcome matches Ok(line) ==> r@[0] matches GuiMessage::Log(s) && s@ == line@,
        outcome matches Err(e) ==> r@[0] matches GuiMessage::Log(s) && s@ == "Error: "@ + e@,
        r@[1] == GuiMessage::Progress((index + 1) as usize, total),
{
    let line = match outcome {
        Ok(line) => line,
        Err(e) => {
            let mut l = owned("Error: ");
            l.append(e.as_str());
            l
        },
    };
    let mut messages: Vec<GuiMessage> = Vec::new();
    messages.push(GuiMessage::Log(line));
    messages.push(GuiMessage::Progress(index + 1, total));
    messages
}

} // verus!
