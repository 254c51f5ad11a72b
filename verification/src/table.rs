//! Row building and text styling for the result tables: colored version and
//! commit renderings as plain strings carrying ANSI escapes.

use vstd::prelude::*;
use vstd::string::StrSliceExecFns;
use vstd::string::StringExecFns;

use crate::git::bytes_hex;
use crate::git::CommitId;
use crate::models::GitInfo;
use crate::strings::dec_digits;
use crate::strings::push_char;
use crate::strings::substr;
use crate::strings::u64_to_string;
use crate::strings::usize_to_string;
use crate::version::join_dots;
use crate::version::join_dots_vec;
use crate::version::ver_str;
use crate::version::Version;
use crate::version::VersionV;

verus! {

/// Wraps `s` in the ANSI codes for green foreground.
pub fn green(s: &str) -> (r: String)
    ensures
        r@ == "\u{1b}[32m"@ + s@ + "\u{1b}[39m"@,
{
    let mut out = String::from_str("\u{1b}[32m");
    out.append(s);
    out.append("\u{1b}[39m");
    out
}

/// Wraps `s` in the ANSI codes for red foreground.
pub fn red(s: &str) -> (r: String)
    ensures
        r@ == "\u{1b}[31m"@ + s@ + "\u{1b}[39m"@,
{
    let mut out = String::from_str("\u{1b}[31m");
    out.append(s);
    out.append("\u{1b}[39m");
    out
}

/// Wraps `s` in the ANSI codes for yellow foreground.
pub fn yellow(s: &str) -> (r: String)
    ensures
        r@ == "\u{1b}[33m"@ + s@ + "\u{1b}[39m"@,
{
    let mut out = String::from_str("\u{1b}[33m");
    out.append(s);
    out.append("\u{1b}[39m");
    out
}

/// Wraps `s` in the ANSI codes for blue foreground.
pub fn blue(s: &str) -> (r: String)
    ensures
        r@ == "\u{1b}[34m"@ + s@ + "\u{1b}[39m"@,
{
    let mut out = String::from_str("\u{1b}[34m");
    out.append(s);
    out.append("\u{1b}[39m");
    out
}

/// Wraps `s` in the ANSI codes for cyan foreground.
pub fn cyan(s: &str) -> (r: String)
    ensures
        r@ == "\u{1b}[36m"@ + s@ + "\u{1b}[39m"@,
{
    let mut out = String::from_str("\u{1b}[36m");
    out.append(s);
    out.append("\u{1b}[39m");
    out
}

/// Wraps `s` in the ANSI codes for white foreground.
pub fn white(s: &str) -> (r: String)
    ensures
        r@ == "\u{1b}[37m"@ + s@ + "\u{1b}[39m"@,
{
    let mut out = String::from_str("\u{1b}[37m");
    out.append(s);
    out.append("\u{1b}[39m");
    out
}

/// Wraps `s` in the ANSI codes for bold text.
pub fn bold(s: &str) -> (r: String)
    ensures
        r@ == "\u{1b}[1m"@ + s@ + "\u{1b}[0m"@,
{
    let mut out = String::from_str("\u{1b}[1m");
    out.append(s);
    out.append("\u{1b}[0m");
    out
}

/// Wraps `s` in the ANSI codes for dimmed text.
pub fn dimmed(s: &str) -> (r: String)
    ensures
        r@ == "\u{1b}[2m"@ + s@ + "\u{1b}[0m"@,
{
    let mut out = String::from_str("\u{1b}[2m");
    out.append(s);
    out.append("\u{1b}[0m");
    out
}

/// The check-type cell: the label in blue.
pub fn display_type(value: &str) -> (r: String)
    ensures
        r@ == "\u{1b}[34m"@ + value@ + "\u{1b}[39m"@,
{
    blue(value)
}

/// The commit cell: the first seven hexadecimal digits, in cyan.
pub fn display_commit(value: &CommitId) -> (r: String)
    requires
        value.wf(),
    ensures
        r@ == "\u{1b}[36m"@ + bytes_hex(value@).subrange(0, 7) + "\u{1b}[39m"@,
{
    let hex = value.to_hex();
    proof {
        lemma_bytes_hex_len(value@);
    }
    let head = substr(hex.as_str(), 0, 7);
    cyan(head.as_str())
}

/// The commit-count cell: the number in yellow, then ` commits`.
pub fn display_commit_count(value: usize) -> (r: String)
    ensures
        r@ == "\u{1b}[33m"@ + dec_digits(value as nat) + "\u{1b}[39m"@ + " commits"@,
{
    let mut out = yellow(usize_to_string(value).as_str());
    out.append(" commits");
    out
}

/// The files cell: the number in white, then ` files changed`.
pub fn display_files_changed(value: usize) -> (r: String)
    ensures
        r@ == "\u{1b}[37m"@ + dec_digits(value as nat) + "\u{1b}[39m"@ + " files changed"@,
{
    let mut out = white(usize_to_string(value).as_str());
    out.append(" files changed");
    out
}

/// The insertions cell: `+` and the number, in green.
pub fn display_insertions(value: usize) -> (r: String)
    ensures
        r@ == "\u{1b}[32m"@ + (seq!['+'] + dec_digits(value as nat)) + "\u{1b}[39m"@,
{
    let mut text = String::from_str("+");
    text.append(usize_to_string(value).as_str());
    proof {
        reveal_strlit("+");
        assert(text@ =~= seq!['+'] + dec_digits(value as nat));
    }
    green(text.as_str())
}

/// The deletions cell: `-` and the number, in red.
pub fn display_deletions(value: usize) -> (r: String)
    ensures
        r@ == "\u{1b}[31m"@ + (seq!['-'] + dec_digits(value as nat)) + "\u{1b}[39m"@,
{
    let mut text = String::from_str("-");
    text.append(usize_to_string(value).as_str());
    proof {
        reveal_strlit("-");
        assert(text@ =~= seq!['-'] + dec_digits(value as nat));
    }
    red(text.as_str())
}

proof fn lemma_bytes_hex_len(b: Seq<u8>)
    ensures
        bytes_hex(b).len() == 2 * b.len(),
    decreases b.len(),
{
    if b.len() > 0 {
        lemma_bytes_hex_len(b.drop_first());
    }
}

/// The three highlight colors a version rendering uses, strongest first.
pub enum Hue {
    Yellow,
    Green,
    Blue,
}

pub open spec fn hue_open(h: Hue) -> Seq<char> {
    match h {
        Hue::Yellow => "\u{1b}[33m"@,
        Hue::Green => "\u{1b}[32m"@,
        Hue::Blue => "\u{1b}[34m"@,
    }
}

fn hue_apply(h: &Hue, s: &str) -> (r: String)
    ensures
        r@ == hue_open(*h) + s@ + "\u{1b}[39m"@,
{
    match h {
        Hue::Yellow => yellow(s),
        Hue::Green => green(s),
        Hue::Blue => blue(s),
    }
}

/// The colors a version bump is shown in, by how breaking each position is:
/// below `1.0.0` every position is breaking, below `0.1.0` even the patch.
pub open spec fn select_colors_spec(cur: VersionV, lat: VersionV) -> (Hue, Hue, Hue) {
    if cur.major == 0 && lat.major == 0 {
        if cur.minor == 0 && lat.minor == 0 {
            (Hue::Yellow, Hue::Yellow, Hue::Yellow)
        } else {
            (Hue::Yellow, Hue::Yellow, Hue::Green)
        }
    } else {
        (Hue::Yellow, Hue::Green, Hue::Blue)
    }
}

/// The version-number part of the colored rendering: highlighted from the
/// first position that differs.
pub open spec fn colorized_head(cur: VersionV, lat: VersionV) -> Seq<char> {
    let colors = select_colors_spec(cur, lat);
    let m = dec_digits(lat.major as nat);
    let n = dec_digits(lat.minor as nat);
    let p = dec_digits(lat.patch as nat);
    if cur.major != lat.major {
        hue_open(colors.0) + m + seq!['.'] + n + seq!['.'] + p + "\u{1b}[39m"@
    } else if cur.minor != lat.minor {
        m + seq!['.'] + hue_open(colors.1) + n + seq!['.'] + p + "\u{1b}[39m"@
    } else {
        m + seq!['.'] + n + seq!['.'] + hue_open(colors.2) + p + "\u{1b}[39m"@
    }
}

/// The colored rendering of the newer version: the part that changed is
/// highlighted from its first differing position, and pre-release and build
/// identifiers are appended dimmed.
pub open spec fn colorized_spec(cur: VersionV, lat: VersionV) -> Seq<char> {
    colorized_head(cur, lat) + (if lat.pre.len() > 0 {
        seq!['-'] + "\u{1b}[2m"@ + join_dots(lat.pre) + "\u{1b}[0m"@
    } else {
        Seq::<char>::empty()
    }) + (if lat.build.len() > 0 {
        seq!['+'] + "\u{1b}[2m"@ + join_dots(lat.build) + "\u{1b}[0m"@
    } else {
        Seq::<char>::empty()
    })
}

/// A version colored by how much it differs from the one installed: the
/// stronger the difference, the stronger the color.
pub struct ColorizedVersion {
    pub current: Version,
    pub latest: Version,
}

impl ColorizedVersion {
    pub fn new(current: &Version, latest: &Version) -> (r: ColorizedVersion)
        ensures
            r.current@ == current@,
            r.latest@ == latest@,
    {
        ColorizedVersion { current: current.duplicate(), latest: latest.duplicate() }
    }

    /// The three highlight colors for this pair of versions.
    pub fn select_colors(&self) -> (r: (Hue, Hue, Hue))
        ensures
            r == select_colors_spec(self.current@, self.latest@),
    {
        if self.current.major == 0 && self.latest.major == 0 {
            if self.current.minor == 0 && self.latest.minor == 0 {
                (Hue::Yellow, Hue::Yellow, Hue::Yellow)
            } else {
                (Hue::Yellow, Hue::Yellow, Hue::Green)
            }
        } else {
            (Hue::Yellow, Hue::Green, Hue::Blue)
        }
    }

    /// Renders the newer version with its change highlighted.
    #[verifier::rlimit(60)]
    pub fn render(&self) -> (r: String)
        ensures
            r@ == colorized_spec(self.current@, self.latest@),
    {
        let colors = self.select_colors();
        let m = u64_to_string(self.latest.major);
        let n = u64_to_string(self.latest.minor);
        let p = u64_to_string(self.latest.patch);
        let mut out: String;
        if self.current.major != self.latest.major {
            let mut body = m;
            push_char(&mut body, '.');
            body.append(n.as_str());
            push_char(&mut body, '.');
            body.append(p.as_str());
            out = hue_apply(&colors.0, body.as_str());
            proof {
                assert(out@ =~= colorized_head(self.current@, self.latest@));
            }
        } else if self.current.minor != self.latest.minor {
            let mut body = n;
            push_char(&mut body, '.');
            body.append(p.as_str());
            out = m;
            push_char(&mut out, '.');
            out.append(hue_apply(&colors.1, body.as_str()).as_str());
            proof {
                assert(out@ =~= colorized_head(self.current@, self.latest@));
            }
        } else {
            out = m;
            push_char(&mut out, '.');
            out.append(n.as_str());
            push_char(&mut out, '.');
            out.append(hue_apply(&colors.2, p.as_str()).as_str());
            proof {
                assert(out@ =~= colorized_head(self.current@, self.latest@));
            }
        }
        let ghost head = out@;
        if self.latest.pre.len() > 0 {
            push_char(&mut out, '-');
            out.append(dimmed(join_dots_vec(&self.latest.pre).as_str()).as_str());
        }
        let ghost mid = out@;
        proof {
            if self.latest@.pre.len() > 0 {
                assert(mid =~= head + (seq!['-'] + "\u{1b}[2m"@ + join_dots(self.latest@.pre)
                    + "\u{1b}[0m"@));
            } else {
                assert(mid =~= head + Seq::<char>::empty());
            }
        }
        if self.latest.build.len() > 0 {
            push_char(&mut out, '+');
            out.append(dimmed(join_dots_vec(&self.latest.build).as_str()).as_str());
        }
        proof {
            if self.latest@.build.len() > 0 {
                assert(out@ =~= mid + (seq!['+'] + "\u{1b}[2m"@ + join_dots(self.latest@.build)
                    + "\u{1b}[0m"@));
            } else {
                assert(out@ =~= mid + Seq::<char>::empty());
            }
            assert(out@ =~= colorized_spec(self.current@, self.latest@));
        }
        out
    }
}

/// One row of the registry table, as plain text cells.
pub struct RegistryRow {
    pub name: String,
    pub current: String,
    pub latest: String,
}

/// The registry table: updates of packages that come from the registry.
pub struct RegistryTable(pub Vec<RegistryRow>);

pub open spec fn registry_rows(t: Seq<RegistryRow>) -> Seq<(Seq<char>, Seq<char>, Seq<char>)> {
    Seq::new(t.len(), |i: int| (t[i].name@, t[i].current@, t[i].latest@))
}

impl RegistryTable {
    /// An empty table.
    pub fn new() -> (r: RegistryTable)
        ensures
            r.0@.len() == 0,
    {
        RegistryTable(Vec::new())
    }

    /// Appends one row: the name, the installed version, and the newer
    /// version with its change highlighted.
    pub fn add(&mut self, name: &str, current: &Version, latest: &Version)
        ensures
            registry_rows(final(self).0@) == registry_rows(old(self).0@).push(
                (name@, ver_str(current@), colorized_spec(current@, latest@)),
            ),
    {
        let row = RegistryRow {
            name: name.to_owned(),
            current: current.render(),
            latest: ColorizedVersion::new(current, latest).render(),
        };
        self.0.push(row);
        proof {
            assert(registry_rows(self.0@) =~= registry_rows(old(self).0@).push(
                (name@, ver_str(current@), colorized_spec(current@, latest@)),
            ));
        }
    }
}

/// One row of the git table, as plain text cells and counts.
pub struct GitRow {
    pub name: String,
    pub label: String,
    pub old_commit: CommitId,
    pub new_commit: CommitId,
    pub commits: usize,
    pub files_changed: usize,
    pub insertions: usize,
    pub deletions: usize,
}

/// The git table: updates of packages that come from git repositories.
pub struct GitTable(pub Vec<GitRow>);

impl GitTable {
    /// An empty table.
    pub fn new() -> (r: GitTable)
        ensures
            r.0@.len() == 0,
    {
        GitTable(Vec::new())
    }

    /// Appends one row from an update report.
    pub fn add(&mut self, name: &str, info: &GitInfo)
        ensures
            final(self).0@.len() == old(self).0@.len() + 1,
            ({
                let row = final(self).0@.last();
                &&& row.name@ == name@
                &&& row.label@ == info@.label
                &&& row.old_commit@ == info@.old_commit
                &&& row.new_commit@ == info@.new_commit
                &&& row.commits == info@.changes.commits
                &&& row.files_changed == info@.changes.files_changed
                &&& row.insertions == info@.changes.insertions
                &&& row.deletions == info@.changes.deletions
            }),
            forall|i: int| 0 <= i < old(self).0@.len() ==> final(self).0@[i] == old(self).0@[i],
    {
        let row = GitRow {
            name: name.to_owned(),
            label: info.label.clone(),
            old_commit: info.old_commit.duplicate(),
            new_commit: info.new_commit.duplicate(),
            commits: info.changes.commits,
            files_changed: info.changes.files_changed,
            insertions: info.changes.insertions,
            deletions: info.changes.deletions,
        };
        self.0.push(row);
    }
}

} // verus!
