//! The Git detector's verified core: commit identifiers, the cache
//! directory naming scheme, the fetch plan derived from a source, and the
//! ahead-count and diff-stat computation over fetched data.

use core::hash::Hasher;

use vstd::prelude::*;
use vstd::string::StrSliceExecFns;
use vstd::string::StringExecFns;

use crate::cargo::GitReference;
use crate::cargo::GitReferenceV;
use crate::models::GitChanges;
use crate::models::GitInfo;
use crate::models::GitInfoV;
use crate::models::GitTarget;
use crate::models::GitTargetV;
use crate::strings::push_char;
use crate::strings::substr;
use crate::urls::url_str;
use crate::urls::CanonicalUrl;
use crate::urls::UrlV;
use crate::version::dval;
use crate::version::is_digit;

verus! {

pub open spec fn is_hex_digit(c: char) -> bool {
    is_digit(c) || (('a' as int) <= (c as int) && (c as int) <= ('f' as int)) || (('A' as int) <= (
    c as int) && (c as int) <= ('F' as int))
}

/// Value of a hexadecimal digit character.
pub open spec fn hex_val(c: char) -> nat {
    if is_digit(c) {
        dval(c)
    } else if ('a' as int) <= (c as int) && (c as int) <= ('f' as int) {
        ((c as int) - ('a' as int) + 10) as nat
    } else if ('A' as int) <= (c as int) && (c as int) <= ('F' as int) {
        ((c as int) - ('A' as int) + 10) as nat
    } else {
        0
    }
}

/// The lower-case hexadecimal digit for `d < 16`.
pub open spec fn hex_digit(d: nat) -> char {
    if d == 0 {
        '0'
    } else if d == 1 {
        '1'
    } else if d == 2 {
        '2'
    } else if d == 3 {
        '3'
    } else if d == 4 {
        '4'
    } else if d == 5 {
        '5'
    } else if d == 6 {
        '6'
    } else if d == 7 {
        '7'
    } else if d == 8 {
        '8'
    } else if d == 9 {
        '9'
    } else if d == 10 {
        'a'
    } else if d == 11 {
        'b'
    } else if d == 12 {
        'c'
    } else if d == 13 {
        'd'
    } else if d == 14 {
        'e'
    } else {
        'f'
    }
}

fn hex_char(d: u8) -> (r: char)
    requires
        d < 16,
    ensures
        r == hex_digit(d as nat),
{
    if d == 0 {
        '0'
    } else if d == 1 {
        '1'
    } else if d == 2 {
        '2'
    } else if d == 3 {
        '3'
    } else if d == 4 {
        '4'
    } else if d == 5 {
        '5'
    } else if d == 6 {
        '6'
    } else if d == 7 {
        '7'
    } else if d == 8 {
        '8'
    } else if d == 9 {
        '9'
    } else if d == 10 {
        'a'
    } else if d == 11 {
        'b'
    } else if d == 12 {
        'c'
    } else if d == 13 {
        'd'
    } else if d == 14 {
        'e'
    } else {
        'f'
    }
}

fn hex_val_exec(c: char) -> (r: Option<u8>)
    ensures
        match r {
            Some(v) => is_hex_digit(c) && v as nat == hex_val(c) && v < 16,
            None => !is_hex_digit(c),
        },
{
    let u = c as u32;
    if 48 <= u && u <= 57 {
        proof {
            assert(is_digit(c) && dval(c) == u - 48);
        }
        Some((u - 48) as u8)
    } else if 97 <= u && u <= 102 {
        Some((u - 87) as u8)
    } else if 65 <= u && u <= 70 {
        Some((u - 55) as u8)
    } else {
        proof {
            assert(!is_hex_digit(c));
        }
        None
    }
}

/// The twenty bytes named by forty hexadecimal characters, if the text has
/// that shape.
pub open spec fn commit_of_hex(s: Seq<char>) -> Option<Seq<u8>> {
    if s.len() == 40 && (forall|i: int| 0 <= i < 40 ==> is_hex_digit(s[i])) {
        Option::Some(
            Seq::new(20, |i: int| (hex_val(s[2 * i]) * 16 + hex_val(s[2 * i + 1])) as u8),
        )
    } else {
        Option::None
    }
}

/// A commit identifier: the twenty bytes of an object id.
#[derive(Debug)]
pub struct CommitId {
    pub bytes: Vec<u8>,
}

impl View for CommitId {
    type V = Seq<u8>;

    open spec fn view(&self) -> Seq<u8> {
        self.bytes@
    }
}

impl CommitId {
    pub open spec fn wf(self) -> bool {
        self@.len() == 20
    }

    /// Parses forty hexadecimal characters into a commit id.
    pub fn parse(s: &str) -> (r: Option<CommitId>)
        ensures
            match r {
                Some(c) => commit_of_hex(s@) == Option::Some(c@) && c.wf(),
                None => commit_of_hex(s@) is None,
            },
    {
        let n = s.unicode_len();
        if n != 40 {
            return None;
        }
        let mut bytes: Vec<u8> = Vec::new();
        let mut i: usize = 0;
        while i < 20
            invariant
                0 <= i <= 20,
                s@.len() == 40,
                bytes@.len() == i,
                forall|j: int| 0 <= j < 2 * i ==> is_hex_digit(s@[j]),
                forall|j: int|
                    0 <= j < i ==> bytes@[j] == (hex_val(s@[2 * j]) * 16 + hex_val(
                        s@[2 * j + 1],
                    )) as u8,
            decreases 20 - i,
        {
            let hi = match hex_val_exec(s.get_char(2 * i)) {
                Some(v) => v,
                None => {
                    return None;
                },
            };
            let lo = match hex_val_exec(s.get_char(2 * i + 1)) {
                Some(v) => v,
                None => {
                    return None;
                },
            };
            bytes.push(hi * 16 + lo);
            i = i + 1;
        }
        let c = CommitId { bytes };
        proof {
            assert(c@ =~= Seq::new(
                20,
                |i: int| (hex_val(s@[2 * i]) * 16 + hex_val(s@[2 * i + 1])) as u8,
            ));
        }
        Some(c)
    }

    /// Whether two commit ids name the same object.
    pub fn equals(&self, other: &CommitId) -> (r: bool)
        ensures
            r == (self@ == other@),
    {
        if self.bytes.len() != other.bytes.len() {
            return false;
        }
        let mut i: usize = 0;
        while i < self.bytes.len()
            invariant
                0 <= i <= self.bytes.len(),
                self.bytes.len() == other.bytes.len(),
                forall|j: int| 0 <= j < i ==> self@[j] == other@[j],
            decreases self.bytes.len() - i,
        {
            if self.bytes[i] != other.bytes[i] {
                return false;
            }
            i = i + 1;
        }
        proof {
            assert(self@ =~= other@);
        }
        true
    }

    /// A copy of the id.
    pub fn duplicate(&self) -> (r: CommitId)
        ensures
            r@ == self@,
    {
        let mut bytes: Vec<u8> = Vec::new();
        let mut i: usize = 0;
        while i < self.bytes.len()
            invariant
                0 <= i <= self.bytes.len(),
                bytes@ == self@.subrange(0, i as int),
            decreases self.bytes.len() - i,
        {
            bytes.push(self.bytes[i]);
            proof {
                assert(bytes@ =~= self@.subrange(0, i + 1 as int));
            }
            i = i + 1;
        }
        proof {
            assert(self@.subrange(0, self.bytes.len() as int) =~= self@);
        }
        CommitId { bytes }
    }

    /// The lower-case hexadecimal rendering of the id.
    pub fn to_hex(&self) -> (r: String)
        ensures
            r@ == bytes_hex(self@),
    {
        let ghost bv = self@;
        let mut out = String::new();
        proof {
            assert(bv.skip(0) =~= bv);
            assert(out@ + bytes_hex(bv) =~= bytes_hex(bv));
        }
        let mut i: usize = 0;
        while i < self.bytes.len()
            invariant
                0 <= i <= self.bytes.len(),
                bv == self@,
                bv.len() == self.bytes.len(),
                bytes_hex(bv) == out@ + bytes_hex(bv.skip(i as int)),
            decreases self.bytes.len() - i,
        {
            let ghost prev = out@;
            let b = self.bytes[i];
            push_char(&mut out, hex_char(b / 16));
            push_char(&mut out, hex_char(b % 16));
            proof {
                assert(bv.skip(i as int)[0] == bv[i as int]);
                assert(bv.skip(i as int).drop_first() =~= bv.skip(i + 1));
                assert(out@ =~= prev + byte_hex(bv[i as int]));
                assert(prev + byte_hex(bv[i as int]) + bytes_hex(bv.skip(i + 1)) =~= prev
                    + bytes_hex(bv.skip(i as int)));
            }
            i = i + 1;
        }
        proof {
            assert(bytes_hex(bv.skip(self.bytes.len() as int)).len() == 0);
            assert(out@ + bytes_hex(bv.skip(self.bytes.len() as int)) =~= out@);
        }
        out
    }
}

/// The two lower-case hexadecimal digits of one byte, high nibble first.
pub open spec fn byte_hex(b: u8) -> Seq<char> {
    seq![hex_digit((b / 16) as nat), hex_digit((b % 16) as nat)]
}

/// The hexadecimal rendering of a byte string, in order.
pub open spec fn bytes_hex(b: Seq<u8>) -> Seq<char>
    decreases b.len(),
{
    if b.len() == 0 {
        Seq::<char>::empty()
    } else {
        byte_hex(b[0]) + bytes_hex(b.drop_first())
    }
}

/// The 64-bit SipHash-2-4 of a byte sequence under the zero key.
pub uninterp spec fn siphash24_of(data: Seq<u8>) -> u64;

/// Relies on `siphasher::sip::SipHasher24` with the two keys zero: the
/// SipHash-2-4 of the bytes, a function of the bytes alone.
#[verifier::external_body]
fn siphash24(data: &Vec<u8>) -> (r: u64)
    ensures
        r == siphash24_of(data@),
{
    let mut h = siphasher::sip::SipHasher24::new();
    h.write(data.as_slice());
    h.finish()
}

/// The hexadecimal rendering of the `k` least significant bytes of `v`,
/// least significant byte first.
pub open spec fn le_hex_of(v: nat, k: nat) -> Seq<char>
    decreases k,
{
    if k == 0 {
        Seq::<char>::empty()
    } else {
        byte_hex((v % 256) as u8) + le_hex_of(v / 256, (k - 1) as nat)
    }
}

fn u64_le_hex(h: u64) -> (r: String)
    ensures
        r@ == le_hex_of(h as nat, 8),
{
    let mut out = String::new();
    let mut rem: u64 = h;
    let mut i: usize = 0;
    proof {
        assert(out@ + le_hex_of(h as nat, 8) =~= le_hex_of(h as nat, 8));
    }
    while i < 8
        invariant
            0 <= i <= 8,
            le_hex_of(h as nat, 8) == out@ + le_hex_of(rem as nat, (8 - i) as nat),
        decreases 8 - i,
    {
        let ghost prev = out@;
        let b = (rem % 256) as u8;
        push_char(&mut out, hex_char(b / 16));
        push_char(&mut out, hex_char(b % 16));
        proof {
            assert(out@ =~= prev + byte_hex(b));
            assert(prev + byte_hex(b) + le_hex_of((rem as nat) / 256, (8 - (i + 1)) as nat) =~= prev
                + le_hex_of(rem as nat, (8 - i) as nat));
        }
        rem = rem / 256;
        i = i + 1;
    }
    proof {
        assert(le_hex_of(rem as nat, 0).len() == 0);
        assert(out@ + le_hex_of(rem as nat, 0) =~= out@);
    }
    out
}

/// Index of the last `/` in the path, or `-1` when there is none.
pub open spec fn last_slash(p: Seq<char>) -> int
    decreases p.len(),
{
    if p.len() == 0 {
        -1
    } else if p.last() == '/' {
        p.len() - 1
    } else {
        last_slash(p.drop_last())
    }
}

proof fn lemma_last_slash(p: Seq<char>)
    ensures
        -1 <= last_slash(p) < p.len(),
        last_slash(p) >= 0 ==> p[last_slash(p)] == '/',
        forall|j: int| last_slash(p) < j < p.len() ==> p[j] != '/',
    decreases p.len(),
{
    if p.len() > 0 && p.last() != '/' {
        lemma_last_slash(p.drop_last());
        assert(forall|j: int| 0 <= j < p.len() - 1 ==> p[j] == p.drop_last()[j]);
    }
}

/// The cache identity of a canonical URL: its last path segment, or the
/// token `_empty` when the path has none.
pub open spec fn ident_of(u: UrlV) -> Seq<char> {
    let seg = u.path.subrange(last_slash(u.path) + 1, u.path.len() as int);
    if seg.len() == 0 {
        "_empty"@
    } else {
        seg
    }
}

/// The bytes whose hash names the cache directory: the canonical URL's
/// serialization, closed by the `0xff` marker that hashing a string value
/// appends.
pub open spec fn cache_hash_input(u: UrlV) -> Seq<u8> {
    vstd::utf8::encode_utf8(url_str(u)).push(0xff)
}

/// The name of the repository cache directory for a canonical URL:
/// `<ident>-<hash>`, the hash being the SipHash-2-4 of the canonical URL,
/// serialized little-endian in lower-case hexadecimal.
pub open spec fn cache_dir_name_spec(u: UrlV) -> Seq<char> {
    ident_of(u) + seq!['-'] + le_hex_of(siphash24_of(cache_hash_input(u)) as nat, 8)
}

fn segment_start(s: &str, n: usize) -> (j: usize)
    requires
        n == s@.len(),
    ensures
        0 <= j <= n,
        forall|k: int| j <= k < n ==> s@[k] != '/',
        j > 0 ==> s@[j - 1] == '/',
{
    let mut j: usize = n;
    while j > 0
        invariant
            0 <= j <= n,
            n == s@.len(),
            forall|k: int| j <= k < n ==> s@[k] != '/',
        decreases j,
    {
        if s.get_char(j - 1) == '/' {
            return j;
        }
        j = j - 1;
    }
    j
}

/// Derives the cache directory name for a canonical URL. A pure function of
/// the canonical URL: equal canonical URLs always give equal names.
pub fn cache_dir_name(c: &CanonicalUrl) -> (r: String)
    ensures
        r@ == cache_dir_name_spec(c@),
{
    let ser = c.to_text();
    let mut bytes = ser.as_str().as_bytes_vec();
    bytes.push(0xff);
    proof {
        assert(bytes@ =~= cache_hash_input(c@));
    }
    let h = siphash24(&bytes);

    let n = c.0.path.as_str().unicode_len();
    let j = segment_start(c.0.path.as_str(), n);
    proof {
        lemma_last_slash(c@.path);
        if j > 0 {
            assert(c@.path[j - 1] == '/');
            assert(last_slash(c@.path) == j - 1);
        } else {
            if last_slash(c@.path) >= 0 {
                assert(c@.path[last_slash(c@.path)] == '/');
            }
            assert(last_slash(c@.path) == -1);
        }
    }
    let seg = substr(c.0.path.as_str(), j, n);
    let mut out = if seg.as_str().unicode_len() == 0 {
        "_empty".to_owned()
    } else {
        seg
    };
    push_char(&mut out, '-');
    out.append(u64_le_hex(h).as_str());
    proof {
        assert(out@ =~= cache_dir_name_spec(c@));
    }
    out
}

/// The fetch a Git check needs: the refspec to fetch, the tracking
/// reference to resolve afterwards, the human label of what is checked, the
/// reference the installer targets, and the pinned commit to compare against.
pub struct GitFetchPlan {
    pub refspec: String,
    pub target_ref: String,
    pub label: String,
    pub target: GitTarget,
    pub old_commit: CommitId,
}

#[verifier::ext_equal]
pub struct GitFetchPlanV {
    pub refspec: Seq<char>,
    pub target_ref: Seq<char>,
    pub label: Seq<char>,
    pub target: GitTargetV,
    pub old_commit: Seq<u8>,
}

impl View for GitFetchPlan {
    type V = GitFetchPlanV;

    open spec fn view(&self) -> GitFetchPlanV {
        GitFetchPlanV {
            refspec: self.refspec@,
            target_ref: self.target_ref@,
            label: self.label@,
            target: self.target@,
            old_commit: self.old_commit@,
        }
    }
}

pub open spec fn opt_plan_view(r: Option<GitFetchPlan>) -> Option<GitFetchPlanV> {
    match r {
        Option::None => Option::None,
        Option::Some(p) => Option::Some(p@),
    }
}

/// Whether and how a Git source is checked. No fetch is planned when the
/// check is disabled, when no commit is pinned or the pin is not a commit
/// id, or when the reference is a tag or a pinned revision; a branch is
/// fetched through `refs/heads`, the default branch through `HEAD`.
pub open spec fn plan_spec(
    gref: GitReferenceV,
    precise: Option<Seq<char>>,
    git_enabled: bool,
) -> Option<GitFetchPlanV> {
    if !git_enabled {
        Option::None
    } else {
        match precise {
            Option::None => Option::None,
            Option::Some(ptext) => match commit_of_hex(ptext) {
                Option::None => Option::None,
                Option::Some(commit) => match gref {
                    GitReferenceV::Tag(_) => Option::None,
                    GitReferenceV::Rev(_) => Option::None,
                    GitReferenceV::Branch(b) => Option::Some(
                        GitFetchPlanV {
                            refspec: "+refs/heads/"@ + b + ":refs/remotes/origin/"@ + b,
                            target_ref: "refs/remotes/origin/"@ + b,
                            label: "branch "@ + b,
                            target: GitTargetV::Branch(b),
                            old_commit: commit,
                        },
                    ),
                    GitReferenceV::DefaultBranch => Option::Some(
                        GitFetchPlanV {
                            refspec: "+HEAD:refs/remotes/origin/HEAD"@,
                            target_ref: "refs/remotes/origin/HEAD"@,
                            label: "HEAD"@,
                            target: GitTargetV::Default,
                            old_commit: commit,
                        },
                    ),
                },
            },
        }
    }
}

/// Decides whether a Git source is checked at all, and builds the fetch
/// plan when it is.
pub fn plan_check(gref: &GitReference, precise: &Option<String>, git_enabled: bool) -> (r: Option<
    GitFetchPlan,
>)
    ensures
        opt_plan_view(r) == plan_spec(gref@, opt_precise_view(*precise), git_enabled),
        r is Some ==> r->Some_0.old_commit.wf(),
{
    if !git_enabled {
        return None;
    }
    let ptext = match precise {
        Some(p) => p,
        None => {
            return None;
        },
    };
    let commit = match CommitId::parse(ptext.as_str()) {
        Some(c) => c,
        None => {
            return None;
        },
    };
    match gref {
        GitReference::Tag(_) => None,
        GitReference::Rev(_) => None,
        GitReference::Branch(b) => {
            let mut refspec = String::from_str("+refs/heads/");
            refspec.append(b.as_str());
            refspec.append(":refs/remotes/origin/");
            refspec.append(b.as_str());
            let mut target_ref = String::from_str("refs/remotes/origin/");
            target_ref.append(b.as_str());
            let mut label = String::from_str("branch ");
            label.append(b.as_str());
            let plan = GitFetchPlan {
                refspec,
                target_ref,
                label,
                target: GitTarget::Branch(b.clone()),
                old_commit: commit,
            };
            proof {
                assert(plan@.refspec =~= "+refs/heads/"@ + b@ + ":refs/remotes/origin/"@ + b@);
            }
            Some(plan)
        },
        GitReference::DefaultBranch => Some(
            GitFetchPlan {
                refspec: String::from_str("+HEAD:refs/remotes/origin/HEAD"),
                target_ref: String::from_str("refs/remotes/origin/HEAD"),
                label: String::from_str("HEAD"),
                target: GitTarget::Default,
                old_commit: commit,
            },
        ),
    }
}

pub open spec fn opt_precise_view(p: Option<String>) -> Option<Seq<char>> {
    match p {
        Option::None => Option::None,
        Option::Some(s) => Option::Some(s@),
    }
}

/// A reference kind of tag or pinned revision never yields a check,
/// whatever the repository or configuration holds.
pub proof fn lemma_pinned_refs_never_checked(
    gref: GitReferenceV,
    precise: Option<Seq<char>>,
    git_enabled: bool,
)
    requires
        gref is Tag || gref is Rev,
    ensures
        plan_spec(gref, precise, git_enabled) is None,
{
}

/// The view of a list of commit ids.
pub open spec fn commits_view(v: Seq<CommitId>) -> Seq<Seq<u8>> {
    Seq::new(v.len(), |i: int| v[i]@)
}

/// How many commits of the ancestry walk come before the pinned commit:
/// the number of commits the remote is ahead, when the pin is found, and
/// the whole walk when it is not.
pub open spec fn ahead_count(anc: Seq<Seq<u8>>, old: Seq<u8>) -> nat
    decreases anc.len(),
{
    if anc.len() == 0 {
        0
    } else if anc[0] == old {
        0
    } else {
        1 + ahead_count(anc.drop_first(), old)
    }
}

proof fn lemma_ahead_count_bound(anc: Seq<Seq<u8>>, old: Seq<u8>)
    ensures
        ahead_count(anc, old) <= anc.len(),
    decreases anc.len(),
{
    if anc.len() > 0 && anc[0] != old {
        lemma_ahead_count_bound(anc.drop_first(), old);
    }
}

/// Counts the commits of the ancestry that come before the pinned commit,
/// and reports whether the pin was found at all.
pub fn count_commits_ahead(ancestry: &Vec<CommitId>, old: &CommitId) -> (r: (usize, bool))
    ensures
        r.0 as nat == ahead_count(commits_view(ancestry@), old@),
        r.1 == commits_view(ancestry@).contains(old@),
        r.0 <= ancestry@.len(),
{
    let ghost av = commits_view(ancestry@);
    proof {
        assert(av.skip(0) =~= av);
        lemma_ahead_count_bound(av, old@);
    }
    let mut i: usize = 0;
    while i < ancestry.len()
        invariant
            0 <= i <= ancestry.len(),
            av == commits_view(ancestry@),
            av.len() == ancestry.len(),
            ahead_count(av, old@) == i + ahead_count(av.skip(i as int), old@),
            forall|j: int| 0 <= j < i ==> av[j] != old@,
        decreases ancestry.len() - i,
    {
        proof {
            assert(av.skip(i as int).len() == av.len() - i);
            assert(av.skip(i as int)[0] == av[i as int]);
            assert(av[i as int] == ancestry@[i as int]@);
        }
        if ancestry[i].equals(old) {
            proof {
                assert(ahead_count(av.skip(i as int), old@) == 0);
                assert(av.contains(old@));
                lemma_ahead_count_bound(av, old@);
            }
            return (i, true);
        }
        proof {
            assert(av.skip(i as int).drop_first() =~= av.skip(i + 1));
        }
        i = i + 1;
    }
    proof {
        assert(av.skip(ancestry.len() as int).len() == 0);
        assert(ahead_count(av, old@) == ancestry.len());
        if av.contains(old@) {
            let w = choose|w: int| 0 <= w < av.len() && av[w] == old@;
            assert(false);
        }
    }
    (ancestry.len(), false)
}

/// Per-file line counts of one changed file; absent when the diff could
/// not count lines for it.
#[derive(Clone, Copy, Debug, PartialEq, Eq, Structural)]
pub struct LineCounts {
    pub insertions: usize,
    pub deletions: usize,
}

/// One changed file of a tree-to-tree diff.
#[derive(Clone, Copy, Debug)]
pub struct FileDiff {
    pub line_counts: Option<LineCounts>,
}

/// The sum of all counted insertions.
pub open spec fn total_insertions(files: Seq<FileDiff>) -> nat
    decreases files.len(),
{
    if files.len() == 0 {
        0
    } else {
        total_insertions(files.drop_last()) + (match files.last().line_counts {
            Option::None => 0,
            Option::Some(c) => c.insertions as nat,
        })
    }
}

/// The sum of all counted deletions.
pub open spec fn total_deletions(files: Seq<FileDiff>) -> nat
    decreases files.len(),
{
    if files.len() == 0 {
        0
    } else {
        total_deletions(files.drop_last()) + (match files.last().line_counts {
            Option::None => 0,
            Option::Some(c) => c.deletions as nat,
        })
    }
}

pub open spec fn sat_usize(n: nat) -> nat {
    if n > usize::MAX {
        usize::MAX as nat
    } else {
        n
    }
}

/// The change summary that fetched data amounts to: the ahead count, and,
/// when it is not zero, the diff's file count and saturated line sums.
pub open spec fn changes_of(ancestry: Seq<Seq<u8>>, old: Seq<u8>, files: Seq<FileDiff>) -> GitChanges {
    let commits = sat_usize(ahead_count(ancestry, old));
    if commits == 0 {
        GitChanges { commits: 0, files_changed: 0, insertions: 0, deletions: 0 }
    } else {
        GitChanges {
            commits: commits as usize,
            files_changed: sat_usize(files.len()) as usize,
            insertions: sat_usize(total_insertions(files)) as usize,
            deletions: sat_usize(total_deletions(files)) as usize,
        }
    }
}

/// Assembles the change summary from fetched data: the ahead count along
/// the new tip's ancestry, and, when commits are ahead, the file and line
/// counts of the diff (line sums saturate at the machine limit). A zero
/// ahead count means no update and reports empty changes. The second result
/// says whether the pinned commit was seen at all: when it was not, the
/// walk was exhausted, an anomaly the caller reports but tolerates.
pub fn git_changes(ancestry: &Vec<CommitId>, old: &CommitId, files: &Vec<FileDiff>) -> (r: (
    GitChanges,
    bool,
))
    ensures
        r.0.commits as nat == ahead_count(commits_view(ancestry@), old@),
        r.1 == commits_view(ancestry@).contains(old@),
        r.0.commits == 0 ==> r.0.files_changed == 0 && r.0.insertions == 0 && r.0.deletions == 0,
        r.0.commits > 0 ==> r.0.files_changed == files@.len() && r.0.insertions as nat == sat_usize(
            total_insertions(files@),
        ) && r.0.deletions as nat == sat_usize(total_deletions(files@)),
        r.0 == changes_of(commits_view(ancestry@), old@, files@),
{
    let (commits, found) = count_commits_ahead(ancestry, old);
    if commits == 0 {
        return (GitChanges { commits: 0, files_changed: 0, insertions: 0, deletions: 0 }, found);
    }
    let ghost fv = files@;
    let mut insertions: usize = 0;
    let mut deletions: usize = 0;
    let mut i: usize = 0;
    while i < files.len()
        invariant
            0 <= i <= files.len(),
            fv == files@,
            insertions as nat == sat_usize(total_insertions(fv.subrange(0, i as int))),
            deletions as nat == sat_usize(total_deletions(fv.subrange(0, i as int))),
        decreases files.len() - i,
    {
        let ghost pre = fv.subrange(0, i as int);
        let ghost cur = fv.subrange(0, i + 1 as int);
        proof {
            assert(cur.drop_last() =~= pre);
            assert(cur.last() == fv[i as int]);
        }
        match files[i].line_counts {
            Some(c) => {
                if insertions > usize::MAX - c.insertions {
                    insertions = usize::MAX;
                } else {
                    insertions = insertions + c.insertions;
                }
                if deletions > usize::MAX - c.deletions {
                    deletions = usize::MAX;
                } else {
                    deletions = deletions + c.deletions;
                }
            },
            None => {},
        }
        i = i + 1;
    }
    proof {
        assert(fv.subrange(0, files.len() as int) =~= fv);
    }
    (
        GitChanges { commits, files_changed: files.len(), insertions, deletions },
        found,
    )
}

/// The terminal step of a Git check: a zero ahead count suppresses the
/// report, anything else pairs the plan's label and target with the two
/// commits and the change summary.
pub fn complete_check(plan: GitFetchPlan, new_commit: CommitId, changes: GitChanges) -> (r: Option<
    GitInfo,
>)
    ensures
        changes.commits == 0 ==> r is None,
        changes.commits > 0 ==> match r {
            Option::Some(info) => info@ == (GitInfoV {
                label: plan@.label,
                old_commit: plan@.old_commit,
                new_commit: new_commit@,
                changes,
                target: plan@.target,
            }),
            Option::None => false,
        },
{
    if changes.commits == 0 {
        return None;
    }
    Some(
        GitInfo {
            label: plan.label,
            old_commit: plan.old_commit,
            new_commit,
            changes,
            target: plan.target,
        },
    )
}

} // verus!
