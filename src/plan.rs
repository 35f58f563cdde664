//! Choosing the output mode and the active sinks from the requested options.
use vstd::prelude::*;

verus! {

/// The output modes; exactly one is active in a run.
#[derive(Clone, Copy, PartialEq, Eq, Structural, Debug)]
pub enum Mode {
    /// Print each matching line.
    Normal,
    /// Print the names of sources with at least one match.
    FilesWithMatch,
    /// Print the names of sources without a match.
    FilesWithoutMatch,
    /// Print `name:count` for every source.
    Count,
}

/// The options a run was asked for.
#[derive(Clone, Copy, Debug)]
pub struct Options {
    pub invert_match: bool,
    pub force_print_filename: bool,
    pub force_no_print_filename: bool,
    pub print_line_number: bool,
    pub print_matching_files: bool,
    pub print_non_matching_files: bool,
    pub count_hits_per_file: bool,
}

/// The activation plan of a run.
#[derive(Clone, Copy, PartialEq, Eq, Structural, Debug)]
pub struct Plan {
    pub mode: Mode,
    /// Negate the match test of each line.
    pub invert: bool,
    /// Printed hits start with the source name.
    pub print_file_path: bool,
    /// Printed hits carry the 1-based line ordinal.
    pub print_line: bool,
}

impl Plan {
    /// Whether a source is left after its first hit.
    pub open spec fn stops_after_first_hit(self) -> bool {
        self.mode == Mode::FilesWithMatch
    }

    /// Whether the line printer is active.
    pub open spec fn prints_hits(self) -> bool {
        self.mode == Mode::Normal
    }

    /// Whether the tally is active.
    pub open spec fn tallies(self) -> bool {
        self.mode != Mode::Normal
    }

    pub fn skips_after_first_hit(&self) -> (r: bool)
        ensures
            r == self.stops_after_first_hit(),
    {
        match self.mode {
            Mode::FilesWithMatch => true,
            _ => false,
        }
    }

    pub fn uses_printer(&self) -> (r: bool)
        ensures
            r == self.prints_hits(),
    {
        match self.mode {
            Mode::Normal => true,
            _ => false,
        }
    }
}

/// Why a run cannot start.
#[derive(Debug)]
pub enum ConfigError {
    /// Both forcing file names on and forcing them off were asked for.
    ConflictingFilenameOptions,
    /// More than one of files-with-match, files-without-match and count.
    ConflictingModeOptions,
    /// The pattern does not compile; glob's message.
    PatternCompile(String),
}

/// Whether two or more of the aggregate modes were asked for.
pub open spec fn modes_conflict(o: Options) -> bool {
    (o.print_matching_files && o.print_non_matching_files)
        || (o.print_matching_files && o.count_hits_per_file)
        || (o.print_non_matching_files && o.count_hits_per_file)
}

/// The mode that the options select, when they do not conflict.
pub open spec fn mode_of(o: Options) -> Mode {
    if o.print_matching_files {
        Mode::FilesWithMatch
    } else if o.print_non_matching_files {
        Mode::FilesWithoutMatch
    } else if o.count_hits_per_file {
        Mode::Count
    } else {
        Mode::Normal
    }
}

/// Whether hits carry the source name: forced on or off, else when there is
/// more than one source.
pub open spec fn file_names_shown(o: Options, n_sources: nat) -> bool {
    if o.force_print_filename {
        true
    } else if o.force_no_print_filename {
        false
    } else {
        n_sources > 1
    }
}

/// The plan that non-conflicting options select for `n_sources` sources.
pub open spec fn plan_of(o: Options, n_sources: nat) -> Plan {
    Plan {
        mode: mode_of(o),
        invert: o.invert_match,
        print_file_path: file_names_shown(o, n_sources),
        print_line: o.print_line_number,
    }
}

/// Resolves the options into a plan for `n_sources` sources.
pub fn select_plan(o: &Options, n_sources: usize) -> (r: Result<Plan, ConfigError>)
    ensures
        o.force_print_filename && o.force_no_print_filename <==> r matches Err(
            ConfigError::ConflictingFilenameOptions,
        ),
        !(o.force_print_filename && o.force_no_print_filename) && modes_conflict(*o) <==> r matches Err(
            ConfigError::ConflictingModeOptions,
        ),
        !(r matches Err(ConfigError::PatternCompile(_))),
        r matches Ok(p) ==> p == plan_of(*o, n_sources as nat),
{
    if o.force_print_filename && o.force_no_print_filename {
        return Err(ConfigError::ConflictingFilenameOptions);
    }
    let l = o.print_matching_files;
    let big_l = o.print_non_matching_files;
    let c = o.count_hits_per_file;
    if (l && big_l) || (l && c) || (big_l && c) {
        return Err(ConfigError::ConflictingModeOptions);
    }
    let mode = if l {
        Mode::FilesWithMatch
    } else if big_l {
        Mode::FilesWithoutMatch
    } else if c {
        Mode::Count
    } else {
        Mode::Normal
    };
    let print_file_path = if o.force_print_filename {
        true
    } else if o.force_no_print_filename {
        false
    } else {
        n_sources > 1
    };
    Ok(Plan { mode, invert: o.invert_match, print_file_path, print_line: o.print_line_number })
}

/// The name that stands for standard input.
pub open spec fn stdin_name() -> Seq<char> {
    seq!['-']
}

/// The sources of a run: the given names, or standard input alone when none
/// is given.
pub fn normalize_sources(files: Vec<String>) -> (r: Vec<String>)
    ensures
        files@.len() == 0 ==> r@.len() == 1 && r@[0]@ == stdin_name(),
        files@.len() > 0 ==> r@ == files@,
{
    if files.len() == 0 {
        let mut r: Vec<String> = Vec::new();
        proof {
            reveal_strlit("-");
        }
        let name = String::from_str("-");
        assert(name@ =~= stdin_name());
        r.push(name);
        r
    } else {
        files
    }
}

} // verus!
