//! Checks at start-up: programs, their versions, and the machine.

use crate::config::HardwareAcceleration;
use crate::text::{
    char_is_digit, chars_of, decimal, decimal_of, is_digit, lemma_decimal_value, lines, lines_of,
    lossy_text, same, trim, trim_str, utf8_lossy, views, words, words_of,
};
use vstd::prelude::*;
use vstd::string::StringExecFns;

verus! {

pub const DEPENDENCY_CHECK_TIMEOUT_SECS: u64 = 10;

// ---------------------------------------------------------------------------
// Versions
// ---------------------------------------------------------------------------
#[derive(Debug, Clone, Copy, PartialEq, Eq, Structural)]
pub struct ParsedVersion {
    pub major: u64,
    pub minor: u64,
    pub patch: u64,
}

impl ParsedVersion {
    pub fn new(major: u64, minor: u64, patch: u64) -> (r: Self)
        ensures
            r == (ParsedVersion { major, minor, patch }),
    {
        ParsedVersion { major, minor, patch }
    }

    /// The oldest version of the media programs that is tested.
    pub fn min_tested() -> (r: Self)
        ensures
            r == (ParsedVersion { major: 6, minor: 0, patch: 0 }),
    {
        ParsedVersion { major: 6, minor: 0, patch: 0 }
    }

    pub open spec fn below(self, other: Self) -> bool {
        ||| self.major < other.major
        ||| self.major == other.major && self.minor < other.minor
        ||| self.major == other.major && self.minor == other.minor && self.patch < other.patch
    }

    /// Whether this version came before another.
    pub fn is_below(self, other: Self) -> (r: bool)
        ensures
            r == self.below(other),
    {
        self.major < other.major || (self.major == other.major && self.minor < other.minor) || (
        self.major == other.major && self.minor == other.minor && self.patch < other.patch)
    }

    /// The version as text.
    pub fn message(self) -> (s: String)
        ensures
            s@ == decimal(self.major as nat) + "."@ + decimal(self.minor as nat) + "."@ + decimal(
                self.patch as nat,
            ),
    {
        let mut s = decimal_of(self.major);
        s.append(".");
        s.append(decimal_of(self.minor).as_str());
        s.append(".");
        s.append(decimal_of(self.patch).as_str());
        s
    }
}

/// The values of the longest runs of digits, in order.
pub open spec fn digit_runs(s: Seq<char>) -> Seq<nat>
    decreases s.len(),
{
    if s.len() == 0 {
        Seq::empty()
    } else {
        let before = digit_runs(s.drop_last());
        let d = (s.last() as nat - 48) as nat;
        if !is_digit(s.last()) {
            before
        } else if in_digits(s.drop_last()) {
            before.update(before.len() - 1, before.last() * 10 + d)
        } else {
            before.push(d)
        }
    }
}

/// A text that ends in a digit.
pub open spec fn in_digits(s: Seq<char>) -> bool {
    s.len() > 0 && is_digit(s.last())
}

pub open spec fn capped(n: nat) -> u64 {
    if n > u64::MAX {
        u64::MAX
    } else {
        n as u64
    }
}

/// The number at a place, zero where there is none.
pub open spec fn run_at(runs: Seq<nat>, i: int) -> u64 {
    if 0 <= i < runs.len() {
        capped(runs[i])
    } else {
        0
    }
}

/// The version that a word holds: its first three numbers.
pub open spec fn version_in(word: Seq<char>) -> Option<ParsedVersion> {
    let runs = digit_runs(word);
    if runs.len() == 0 {
        None
    } else {
        Some(
            ParsedVersion { major: run_at(runs, 0), minor: run_at(runs, 1), patch: run_at(runs, 2) },
        )
    }
}

fn version_of(word: &str) -> (r: Option<ParsedVersion>)
    ensures
        r == version_in(word@),
{
    let v = chars_of(word);
    let mut values: [u64; 3] = [0, 0, 0];
    let mut found: usize = 0;
    let mut inside = false;
    let mut i: usize = 0;
    assert(word@.take(0) =~= Seq::<char>::empty());
    while i < v.len()
        invariant
            v@ == word@,
            i <= v@.len(),
            found <= i,
            found == digit_runs(word@.take(i as int)).len(),
            inside == in_digits(word@.take(i as int)),
            inside ==> found > 0,
            values@.len() == 3,
            forall|k: int|
                0 <= k < 3 ==> #[trigger] values@[k] == run_at(
                    digit_runs(word@.take(i as int)),
                    k,
                ),
        decreases v@.len() - i,
    {
        let c = v[i];
        let ghost before = digit_runs(word@.take(i as int));
        assert(word@.take(i + 1).drop_last() =~= word@.take(i as int));
        assert(word@.take(i + 1).last() == c);
        if char_is_digit(c) {
            let d: u64 = (c as u8 - 48) as u64;
            if !inside {
                found = found + 1;
                inside = true;
                if found <= 3 {
                    values[found - 1] = d;
                }
            } else if found <= 3 {
                let old_value = values[found - 1];
                assert(old_value == capped(before.last()));
                let new_value: u64 = if old_value > (u64::MAX - d) / 10 {
                    u64::MAX
                } else {
                    old_value * 10 + d
                };
                assert(new_value == capped(before.last() * 10 + d as nat));
                values[found - 1] = new_value;
            }
        } else {
            inside = false;
        }
        i = i + 1;
    }
    assert(word@.take(i as int) =~= word@);
    if found == 0 {
        return None;
    }
    Some(ParsedVersion::new(values[0], values[1], values[2]))
}

/// The first word that holds a digit, from place `i` on.
pub open spec fn word_with_digit(all: Seq<Seq<char>>, i: int) -> Option<Seq<char>>
    decreases all.len() - i,
{
    if 0 <= i < all.len() {
        if digit_runs(all[i]).len() > 0 {
            Some(all[i])
        } else {
            word_with_digit(all, i + 1)
        }
    } else {
        None
    }
}

/// The word behind the first `version`, from place `i` on.
pub open spec fn word_behind_version(all: Seq<Seq<char>>, i: int) -> Option<Seq<char>>
    decreases all.len() - i,
{
    if 0 <= i < all.len() {
        if all[i] == "version"@ {
            if i + 1 < all.len() {
                Some(all[i + 1])
            } else {
                None
            }
        } else {
            word_behind_version(all, i + 1)
        }
    } else {
        None
    }
}

/// The version that a program's first line tells: behind the word `version`,
/// else in the first word with a digit.
pub open spec fn summary_version(summary: Seq<char>) -> Option<ParsedVersion> {
    let candidate = match word_behind_version(words(summary), 0) {
        Some(word) => Some(word),
        None => word_with_digit(words(summary), 0),
    };
    match candidate {
        Some(word) => version_in(word),
        None => None,
    }
}

pub fn parse_version_from_summary(summary: &str) -> (r: Option<ParsedVersion>)
    ensures
        r == summary_version(summary@),
{
    let all_words = words_of(summary);
    let ghost all = words(summary@);
    assert(all.len() == all_words@.len());
    let mut i: usize = 0;
    while i < all_words.len()
        invariant
            i <= all_words@.len(),
            all == words(summary@),
            views(all_words@) == all,
            word_behind_version(all, 0) == word_behind_version(all, i as int),
        decreases all_words@.len() - i,
    {
        assert(all[i as int] == all_words@[i as int]@);
        if same(all_words[i].as_str(), "version") {
            if i + 1 < all_words.len() {
                assert(all[i + 1] == all_words@[i + 1]@);
                return version_of(all_words[i + 1].as_str());
            }
            return first_version(&all_words);
        }
        i = i + 1;
    }
    first_version(&all_words)
}

fn first_version(all_words: &Vec<String>) -> (r: Option<ParsedVersion>)
    ensures
        r == (match word_with_digit(views(all_words@), 0) {
            Some(word) => version_in(word),
            None => None,
        }),
{
    let ghost all = views(all_words@);
    let mut i: usize = 0;
    while i < all_words.len()
        invariant
            i <= all_words@.len(),
            all == views(all_words@),
            word_with_digit(all, 0) == word_with_digit(all, i as int),
        decreases all_words@.len() - i,
    {
        assert(all[i as int] == all_words@[i as int]@);
        let version = version_of(all_words[i].as_str());
        if version.is_some() {
            return version;
        }
        i = i + 1;
    }
    None
}

// ---------------------------------------------------------------------------
// What programs print
// ---------------------------------------------------------------------------
/// The first line that is not blank, trimmed, from place `i` on.
pub open spec fn first_text_line(all: Seq<Seq<char>>, i: int) -> Option<Seq<char>>
    decreases all.len() - i,
{
    if 0 <= i < all.len() {
        if trim(all[i]).len() > 0 {
            Some(trim(all[i]))
        } else {
            first_text_line(all, i + 1)
        }
    } else {
        None
    }
}

/// The line that names a program's version.
pub open spec fn version_line(stdout: Seq<char>, stderr: Seq<char>) -> Seq<char> {
    match first_text_line(lines(stdout), 0) {
        Some(line) => line,
        None => match first_text_line(lines(stderr), 0) {
            Some(line) => line,
            None => "unknown-version"@,
        },
    }
}

fn find_text_line(text: &str) -> (r: Option<String>)
    ensures
        match r {
            Some(s) => first_text_line(lines(text@), 0) == Some(s@),
            None => first_text_line(lines(text@), 0) is None,
        },
{
    let all_lines = lines_of(text);
    let ghost all = lines(text@);
    assert(all.len() == all_lines@.len());
    let mut i: usize = 0;
    while i < all_lines.len()
        invariant
            i <= all_lines@.len(),
            all == lines(text@),
            views(all_lines@) == all,
            first_text_line(all, 0) == first_text_line(all, i as int),
        decreases all_lines@.len() - i,
    {
        assert(all[i as int] == all_lines@[i as int]@);
        let line = trim_str(all_lines[i].as_str());
        if !line.as_str().is_empty() {
            return Some(line);
        }
        i = i + 1;
    }
    None
}

/// Pick the version line out of what a program printed.
pub fn version_summary(stdout: &str, stderr: &str) -> (s: String)
    ensures
        s@ == version_line(stdout@, stderr@),
{
    match find_text_line(stdout) {
        Some(line) => line,
        None => match find_text_line(stderr) {
            Some(line) => line,
            None => "unknown-version".to_owned(),
        },
    }
}

/// Pick the version line out of a program's raw output.
pub fn command_version_summary(stdout: &[u8], stderr: &[u8]) -> (s: String)
    ensures
        s@ == version_line(lossy_text(stdout@), lossy_text(stderr@)),
{
    let out = utf8_lossy(stdout);
    let err = utf8_lossy(stderr);
    version_summary(out.as_str(), err.as_str())
}

/// Whether an encoder is listed: it stands as a word somewhere.
pub fn lists_encoder(listing: &str, encoder: &str) -> (r: bool)
    ensures
        r == words(listing@).contains(encoder@),
{
    let all_words = words_of(listing);
    let ghost all = words(listing@);
    assert(all.len() == all_words@.len());
    let mut i: usize = 0;
    while i < all_words.len()
        invariant
            i <= all_words@.len(),
            all == words(listing@),
            views(all_words@) == all,
            forall|j: int| 0 <= j < i ==> all[j] != encoder@,
        decreases all_words@.len() - i,
    {
        assert(all[i as int] == all_words@[i as int]@);
        if same(all_words[i].as_str(), encoder) {
            return true;
        }
        i = i + 1;
    }
    false
}

/// Whether a backend is listed: it has a line of its own.
pub fn lists_hwaccel(listing: &str, backend: &str) -> (r: bool)
    ensures
        r == exists|i: int|
            0 <= i < lines(listing@).len() && trim(#[trigger] lines(listing@)[i]) == backend@,
{
    let all_lines = lines_of(listing);
    let ghost all = lines(listing@);
    assert(all.len() == all_lines@.len());
    let mut i: usize = 0;
    while i < all_lines.len()
        invariant
            i <= all_lines@.len(),
            all == lines(listing@),
            views(all_lines@) == all,
            forall|j: int| 0 <= j < i ==> trim(#[trigger] all[j]) != backend@,
        decreases all_lines@.len() - i,
    {
        assert(all[i as int] == all_lines@[i as int]@);
        if same(trim_str(all_lines[i].as_str()).as_str(), backend) {
            assert(trim(lines(listing@)[i as int]) == backend@);
            return true;
        }
        i = i + 1;
    }
    false
}

/// The name of a backend among the accelerators, where it has one.
pub fn hwaccel_backend(backend: HardwareAcceleration) -> (r: Option<&'static str>)
    ensures
        match backend {
            HardwareAcceleration::Nvenc => r matches Some(s) && s@ == "cuda"@,
            HardwareAcceleration::Vaapi => r matches Some(s) && s@ == "vaapi"@,
            HardwareAcceleration::VideoToolbox => r matches Some(s) && s@ == "videotoolbox"@,
            _ => r is None,
        },
{
    match backend {
        HardwareAcceleration::Nvenc => Some("cuda"),
        HardwareAcceleration::Vaapi => Some("vaapi"),
        HardwareAcceleration::VideoToolbox => Some("videotoolbox"),
        _ => None,
    }
}

// ---------------------------------------------------------------------------
// Programs
// ---------------------------------------------------------------------------
/// Where a program is looked for.
#[derive(Debug)]
pub enum BinaryLookup {
    Failed { message: String },
    /// The path is to be taken as it is.
    UsePath,
    /// The name is to be searched for.
    Search,
}

fn labelled(label: &str, text: &str) -> (s: String)
    ensures
        s@ == label@ + text@,
{
    let mut s = label.to_owned();
    s.append(text);
    s
}

/// Decide where to look: a path with more than one component, or an absolute
/// one, is taken as it is and has to exist.
pub fn resolve_binary_path(
    path: &str,
    label: &str,
    is_absolute: bool,
    components: usize,
    exists: bool,
) -> (r: BinaryLookup)
    ensures
        path@.len() == 0 ==> (r matches BinaryLookup::Failed { message } && message@ == label@
            + " path is empty"@),
        path@.len() > 0 && (is_absolute || components > 1) && exists ==> r is UsePath,
        path@.len() > 0 && (is_absolute || components > 1) && !exists ==> (
        r matches BinaryLookup::Failed { message } && message@ == label@ + " path '"@ + path@
            + "' does not exist"@),
        path@.len() > 0 && !is_absolute && components <= 1 ==> r is Search,
{
    if path.is_empty() {
        return BinaryLookup::Failed { message: labelled(label, " path is empty") };
    }
    if is_absolute || components > 1 {
        if exists {
            return BinaryLookup::UsePath;
        }
        let mut message = labelled(label, " path '");
        message.append(path);
        message.append("' does not exist");
        return BinaryLookup::Failed { message };
    }
    BinaryLookup::Search
}

/// A program is not on the search path.
pub fn not_on_path_error(label: &str) -> (s: String)
    ensures
        s@ == label@ + " not found on PATH"@,
{
    labelled(label, " not found on PATH")
}

/// How a check of a program went.
#[derive(Debug)]
pub enum DependencyCheck {
    /// It ran; what it printed.
    Ran { success: bool, stdout: Vec<u8>, stderr: Vec<u8> },
    Missing,
    /// It could not be started.
    Failed { cause: String },
    TimedOut,
}

/// What a check says of a program.
#[derive(Debug)]
pub struct DependencyReport {
    pub version: String,
    /// Where a version is asked for: what was found is too old, or not known.
    pub warning: Option<VersionWarning>,
}

#[derive(Debug, Clone, Copy, PartialEq, Eq, Structural)]
pub enum VersionWarning {
    TooOld { found: ParsedVersion },
    Unknown,
}

pub open spec fn version_warning(version: Seq<char>, minimum: Option<ParsedVersion>) -> Option<
    VersionWarning,
> {
    match minimum {
        None => None,
        Some(least) => match summary_version(version) {
            None => Some(VersionWarning::Unknown),
            Some(found) => if found.below(least) {
                Some(VersionWarning::TooOld { found })
            } else {
                None
            },
        },
    }
}

pub open spec fn dependency_error(label: Seq<char>, check: DependencyCheck) -> Option<Seq<char>> {
    match check {
        DependencyCheck::Ran { success, stderr, .. } => if success {
            None
        } else {
            Some("dependency '"@ + label + "' check failed: "@ + lossy_text(stderr@))
        },
        DependencyCheck::Missing => Some("required dependency '"@ + label + "' is missing"@),
        DependencyCheck::Failed { cause } => Some(
            "failed to execute dependency '"@ + label + "': "@ + cause@,
        ),
        DependencyCheck::TimedOut => Some("dependency '"@ + label + "' check timed out"@),
    }
}

/// Judge a check: a program that does not run stops the start, an old one is
/// only warned of.
pub fn verify_dependency(
    label: &str,
    check: &DependencyCheck,
    minimum: Option<ParsedVersion>,
) -> (r: Result<DependencyReport, String>)
    ensures
        r is Ok <==> dependency_error(label@, *check) is None,
        r matches Err(e) ==> dependency_error(label@, *check) == Some(e@),
        r matches Ok(report) ==> (*check matches DependencyCheck::Ran { stdout, stderr, .. }
            && report.version@ == version_line(lossy_text(stdout@), lossy_text(stderr@))
            && report.warning == version_warning(report.version@, minimum)),
{
    match check {
        DependencyCheck::Ran { success, stdout, stderr } => {
            if !*success {
                let mut e = "dependency '".to_owned();
                e.append(label);
                e.append("' check failed: ");
                e.append(utf8_lossy(stderr.as_slice()).as_str());
                return Err(e);
            }
            let version = command_version_summary(stdout.as_slice(), stderr.as_slice());
            let warning = match minimum {
                None => None,
                Some(least) => match parse_version_from_summary(version.as_str()) {
                    None => Some(VersionWarning::Unknown),
                    Some(found) => {
                        if found.is_below(least) {
                            Some(VersionWarning::TooOld { found })
                        } else {
                            None
                        }
                    },
                },
            };
            Ok(DependencyReport { version, warning })
        },
        DependencyCheck::Missing => {
            let mut e = "required dependency '".to_owned();
            e.append(label);
            e.append("' is missing");
            Err(e)
        },
        DependencyCheck::Failed { cause } => {
            let mut e = "failed to execute dependency '".to_owned();
            e.append(label);
            e.append("': ");
            e.append(cause.as_str());
            Err(e)
        },
        DependencyCheck::TimedOut => {
            let mut e = "dependency '".to_owned();
            e.append(label);
            e.append("' check timed out");
            Err(e)
        },
    }
}

// ---------------------------------------------------------------------------
// The machine
// ---------------------------------------------------------------------------
/// The number of open files to ask for; nothing where the limit is high
/// enough.
pub fn raised_fd_limit(soft: u64, hard: u64) -> (r: Option<u64>)
    ensures
        ({
            let target: u64 = if hard < 65_536 {
                hard
            } else {
                65_536
            };
            r == (if soft >= target {
                None
            } else {
                Some(target)
            })
        }),
{
    let target: u64 = if hard < 65_536 {
        hard
    } else {
        65_536
    };
    if soft >= target {
        None
    } else {
        Some(target)
    }
}

/// The file that shows whether a directory can be written to.
pub fn writable_probe_name(process_id: u32, nonce: u64) -> (s: String)
    ensures
        s@ == ".azalea-writable-"@ + decimal(process_id as nat) + "-"@ + decimal(nonce as nat)
            + ".tmp"@,
{
    let mut s = ".azalea-writable-".to_owned();
    s.append(decimal_of(process_id as u64).as_str());
    s.append("-");
    s.append(decimal_of(nonce).as_str());
    s.append(".tmp");
    s
}

/// The directory cannot be written to.
pub fn not_writable_error(dir: &str, probe: &str, cause: &str) -> (s: String)
    ensures
        s@ == "temp dir '"@ + dir@ + "' is not writable: failed to create probe file '"@ + probe@
            + "': "@ + cause@,
{
    let mut s = "temp dir '".to_owned();
    s.append(dir);
    s.append("' is not writable: failed to create probe file '");
    s.append(probe);
    s.append("': ");
    s.append(cause);
    s
}

/// The file that was written cannot be removed.
pub fn probe_cleanup_error(dir: &str, probe: &str, cause: &str) -> (s: String)
    ensures
        s@ == "temp dir '"@ + dir@ + "' failed writability probe cleanup for '"@ + probe@ + "': "@
            + cause@,
{
    let mut s = "temp dir '".to_owned();
    s.append(dir);
    s.append("' failed writability probe cleanup for '");
    s.append(probe);
    s.append("': ");
    s.append(cause);
    s
}

// ---------------------------------------------------------------------------
// Versions as they are written
// ---------------------------------------------------------------------------
/// Of two versions exactly one holds: they are the same, or one is below the
/// other. An older line of releases is below whatever follows in it.
pub proof fn lemma_versions_are_ordered(a: ParsedVersion, b: ParsedVersion, c: ParsedVersion)
    ensures
        !a.below(a),
        a.below(b) ==> !b.below(a),
        a != b ==> a.below(b) || b.below(a),
        a.below(b) && b.below(c) ==> a.below(c),
        a.major < b.major ==> a.below(b),
        a.major == b.major && a.minor < b.minor ==> a.below(b),
        a.major == b.major && a.minor == b.minor && a.patch < b.patch ==> a.below(b),
{
}

/// Runs of digits behind text that does not end in one are runs of their own.
proof fn lemma_runs_end_at_other_characters(s: Seq<char>, n: nat)
    requires
        !in_digits(s),
    ensures
        digit_runs(s + decimal(n)) == digit_runs(s).push(n),
        in_digits(s + decimal(n)),
    decreases n,
{
    lemma_decimal_value(n);
    let t = s + decimal(n);
    if n < 10 {
        assert(t.drop_last() =~= s);
        assert(t.last() == decimal(n)[0]);
    } else {
        lemma_runs_end_at_other_characters(s, n / 10);
        assert(t.drop_last() =~= s + decimal(n / 10));
        assert(t.last() == decimal(n).last());
        let before = digit_runs(s).push(n / 10);
        assert(before.update(before.len() - 1, n) =~= digit_runs(s).push(n));
    }
}

/// A dotted version, with whatever stands before it, is read as its numbers.
pub proof fn lemma_dotted_versions_read_back(major: nat, minor: nat, patch: nat)
    requires
        major <= u64::MAX,
        minor <= u64::MAX,
        patch <= u64::MAX,
    ensures
        version_in(decimal(major) + seq!['.'] + decimal(minor) + seq!['.'] + decimal(patch)) == Some(
            ParsedVersion { major: major as u64, minor: minor as u64, patch: patch as u64 },
        ),
        version_in(seq!['n'] + decimal(major) + seq!['.'] + decimal(minor)) == Some(
            ParsedVersion { major: major as u64, minor: minor as u64, patch: 0 },
        ),
        version_in(Seq::empty()) is None,
{
    let none = Seq::<char>::empty();
    lemma_runs_end_at_other_characters(none, major);
    assert(none + decimal(major) =~= decimal(major));
    let a = decimal(major) + seq!['.'];
    assert(a.drop_last() =~= decimal(major));
    assert(a.last() == '.');
    assert(digit_runs(a) == digit_runs(decimal(major)));
    lemma_runs_end_at_other_characters(a, minor);
    let b = a + decimal(minor) + seq!['.'];
    assert(b.drop_last() =~= a + decimal(minor));
    assert(b.last() == '.');
    assert(digit_runs(b) == digit_runs(a + decimal(minor)));
    lemma_runs_end_at_other_characters(b, patch);
    let n = seq!['n'];
    assert(n.drop_last() =~= none);
    assert(digit_runs(none) =~= Seq::<nat>::empty());
    assert(digit_runs(n) =~= Seq::<nat>::empty());
    lemma_runs_end_at_other_characters(n, major);
    let c = n + decimal(major) + seq!['.'];
    assert(c.drop_last() =~= n + decimal(major));
    assert(c.last() == '.');
    assert(digit_runs(c) == digit_runs(n + decimal(major)));
    lemma_runs_end_at_other_characters(c, minor);
}

/// The word behind the first `version` is taken, where there is one.
pub proof fn lemma_version_follows_its_word(all: Seq<Seq<char>>, at: int, i: int)
    requires
        0 <= i <= at <= all.len(),
        forall|k: int| i <= k < at ==> #[trigger] all[k] != "version"@,
        at < all.len() ==> all[at] == "version"@,
    ensures
        at + 1 < all.len() ==> word_behind_version(all, i) == Some(all[at + 1]),
        at + 1 >= all.len() ==> word_behind_version(all, i) is None,
    decreases at - i,
{
    if i < at {
        assert(all[i] != "version"@);
        lemma_version_follows_its_word(all, at, i + 1);
    }
}

/// A line is the first that holds more than white space, without the white
/// space around it.
pub proof fn lemma_first_line_with_text(all: Seq<Seq<char>>, at: int, i: int)
    requires
        0 <= i <= at <= all.len(),
        forall|k: int| i <= k < at ==> trim(#[trigger] all[k]).len() == 0,
        at < all.len() ==> trim(all[at]).len() > 0,
    ensures
        at < all.len() ==> first_text_line(all, i) == Some(trim(all[at])),
        at == all.len() ==> first_text_line(all, i) is None,
    decreases at - i,
{
    if i < at {
        assert(trim(all[i]).len() == 0);
        lemma_first_line_with_text(all, at, i + 1);
    }
}

/// What a program prints goes before what it complains of.
pub proof fn lemma_output_goes_before_complaints(stdout: Seq<char>, stderr: Seq<char>)
    ensures
        first_text_line(lines(stdout), 0) is Some ==> version_line(stdout, stderr)
            == first_text_line(lines(stdout), 0)->0,
        first_text_line(lines(stdout), 0) is None && first_text_line(lines(stderr), 0) is Some
            ==> version_line(stdout, stderr) == first_text_line(lines(stderr), 0)->0,
        first_text_line(lines(stdout), 0) is None && first_text_line(lines(stderr), 0) is None
            ==> version_line(stdout, stderr) == "unknown-version"@,
{
}

/// A program is warned of where its version is below the least one or cannot be
/// told, and only where there is a least one.
pub proof fn lemma_warned_of_what_is_too_old(version: Seq<char>, least: ParsedVersion)
    ensures
        version_warning(version, None) is None,
        summary_version(version) is None ==> version_warning(version, Some(least)) == Some(
            VersionWarning::Unknown,
        ),
        summary_version(version) matches Some(found) ==> (version_warning(version, Some(least))
            is Some <==> found.below(least)),
        version_warning(version, Some(least)) matches Some(VersionWarning::TooOld { found })
            ==> summary_version(version) == Some(found),
{
}

/// Every check but one that ran well is an error, and the error names the
/// program.
pub proof fn lemma_failed_checks_name_the_program(label: Seq<char>, check: DependencyCheck)
    ensures
        dependency_error(label, check) is None <==> (check matches DependencyCheck::Ran {
            success,
            ..
        } && success),
        check is Missing ==> dependency_error(label, check) == Some(
            "required dependency '"@ + label + "' is missing"@,
        ),
        check is TimedOut ==> dependency_error(label, check) == Some(
            "dependency '"@ + label + "' check timed out"@,
        ),
        check matches DependencyCheck::Failed { cause } ==> dependency_error(label, check) == Some(
            "failed to execute dependency '"@ + label + "': "@ + cause@,
        ),
        check matches DependencyCheck::Ran { success: false, stderr, .. } ==> dependency_error(
            label,
            check,
        ) == Some("dependency '"@ + label + "' check failed: "@ + lossy_text(stderr@)),
{
}

} // verus!
