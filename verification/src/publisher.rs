//! Artifact discovery and publication planning.
//!
//! After the compile step, an interface-description file may sit in any of
//! several candidate locations. The publisher searches them in priority
//! order, adopts the first valid one, and plans a copy of it into every
//! destination directory. When nothing valid exists anywhere, it plans a
//! sentinel placeholder for every destination that has no file at all, and
//! asks for a warning to be emitted.
//!
//! Everything here is pure: the caller gathers what the filesystem holds
//! into [`CandidateFile`] and [`DestFile`] values, and executes the
//! returned [`PublishPlan`] afterwards. The specifications speak over the
//! ghost models [`CandidateModel`] and [`DestModel`].

use vstd::prelude::*;

verus! {

/// How a candidate's content is judged before it may be adopted.
#[derive(Clone, Copy, Debug, PartialEq, Eq, Structural)]
pub enum ValidityRule {
    /// Accept content with at least one non-whitespace byte
    /// (used for the curated, checked-in artifact).
    NonBlank,
    /// Accept non-empty content that is not the sentinel placeholder.
    NonSentinel,
    /// Accept any content at all (used for files fresh from the compiler).
    AnyContent,
}

/// One ranked place where a valid artifact might appear.
#[derive(Debug)]
pub struct CandidateFile {
    /// Full path of the file, used only to recognise self-copies.
    pub path: Vec<u8>,
    /// The file's content, or `None` when it does not exist or could not
    /// be read.
    pub content: Option<Vec<u8>>,
    /// The validity rule this location is judged by.
    pub rule: ValidityRule,
}

/// A file found at some searched location: its path and, when it exists
/// and is readable, its content.
#[derive(Debug)]
pub struct FoundArtifact {
    /// Full path of the file.
    pub path: Vec<u8>,
    /// The file's content, or `None` when it does not exist or could not
    /// be read.
    pub content: Option<Vec<u8>>,
}

/// One destination that must end up holding the artifact.
#[derive(Debug)]
pub struct DestFile {
    /// Full path of the destination file (directory plus canonical name).
    pub path: Vec<u8>,
    /// What the destination currently holds, if anything.
    pub existing: Option<Vec<u8>>,
}

/// What publication does to one destination.
#[derive(Clone, Copy, Debug, PartialEq, Eq, Structural)]
pub enum DestAction {
    /// Overwrite the destination with the adopted source file.
    CopyFromSource,
    /// The adopted source *is* this destination file: leave it alone.
    SkipSelfCopy,
    /// No valid source exists and the destination already holds a file:
    /// leave that file untouched.
    LeaveExisting,
    /// No valid source exists and the destination is empty: fill the gap
    /// with the sentinel placeholder.
    WriteSentinel,
}

/// The publisher's whole decision, ready to execute.
#[derive(Debug)]
pub struct PublishPlan {
    /// Index of the adopted candidate, or `None` when the search failed.
    pub source: Option<usize>,
    /// One action per destination, in the destinations' order.
    pub actions: Vec<DestAction>,
    /// Whether a diagnostic warning must be emitted (exactly when the
    /// search failed).
    pub warn: bool,
}

/// The mathematical shadow of a [`CandidateFile`].
#[verifier::ext_equal]
pub ghost struct CandidateModel {
    pub path: Seq<u8>,
    pub content: Option<Seq<u8>>,
    pub rule: ValidityRule,
}

/// The mathematical shadow of a [`FoundArtifact`].
#[verifier::ext_equal]
pub ghost struct FoundModel {
    pub path: Seq<u8>,
    pub content: Option<Seq<u8>>,
}

/// The mathematical shadow of a [`DestFile`].
#[verifier::ext_equal]
pub ghost struct DestModel {
    pub path: Seq<u8>,
    pub existing: Option<Seq<u8>>,
}

/// The view of an optional content.
pub open spec fn opt_view(c: Option<Vec<u8>>) -> Option<Seq<u8>> {
    match c {
        Some(v) => Some(v@),
        None => None,
    }
}

impl View for CandidateFile {
    type V = CandidateModel;

    open spec fn view(&self) -> CandidateModel {
        CandidateModel { path: self.path@, content: opt_view(self.content), rule: self.rule }
    }
}

impl View for FoundArtifact {
    type V = FoundModel;

    open spec fn view(&self) -> FoundModel {
        FoundModel { path: self.path@, content: opt_view(self.content) }
    }
}

impl View for DestFile {
    type V = DestModel;

    open spec fn view(&self) -> DestModel {
        DestModel { path: self.path@, existing: opt_view(self.existing) }
    }
}

/// The models of a sequence of candidates, in order.
pub open spec fn cand_views(cands: Seq<CandidateFile>) -> Seq<CandidateModel> {
    cands.map_values(|c: CandidateFile| c@)
}

/// The models of a sequence of found files, in order.
pub open spec fn found_views(found: Seq<FoundArtifact>) -> Seq<FoundModel> {
    found.map_values(|f: FoundArtifact| f@)
}

/// The models of a sequence of destinations, in order.
pub open spec fn dest_views(dests: Seq<DestFile>) -> Seq<DestModel> {
    dests.map_values(|d: DestFile| d@)
}

/// The sentinel placeholder `0x00`, as bytes.
pub open spec fn sentinel() -> Seq<u8> {
    seq![48u8, 120u8, 48u8, 48u8]
}

/// Whitespace, for the purpose of judging the checked-in artifact.
pub open spec fn is_space(b: u8) -> bool {
    b == 32 || b == 9 || b == 10 || b == 13
}

/// Content that trims to nothing (the empty content included).
pub open spec fn is_blank(s: Seq<u8>) -> bool {
    forall|i: int| 0 <= i < s.len() ==> is_space(s[i])
}

/// Whether content passes a validity rule.
pub open spec fn rule_accepts(rule: ValidityRule, s: Seq<u8>) -> bool {
    match rule {
        ValidityRule::NonBlank => !is_blank(s),
        ValidityRule::NonSentinel => s.len() > 0 && s != sentinel(),
        ValidityRule::AnyContent => true,
    }
}

/// A candidate may be adopted when it exists and its content passes its
/// own rule.
pub open spec fn candidate_ok(c: CandidateModel) -> bool {
    match c.content {
        Some(b) => rule_accepts(c.rule, b),
        None => false,
    }
}

/// Index of the first adoptable candidate at or after position `i`.
pub open spec fn first_ok_from(cands: Seq<CandidateModel>, i: int) -> Option<int>
    decreases cands.len() - i,
{
    if i >= cands.len() {
        None
    } else if candidate_ok(cands[i]) {
        Some(i)
    } else {
        first_ok_from(cands, i + 1)
    }
}

/// Index of the first adoptable candidate, searching the whole list.
pub open spec fn first_ok(cands: Seq<CandidateModel>) -> Option<int> {
    first_ok_from(cands, 0)
}

/// `first_ok_from` really is the first hit: everything before it fails
/// its rule, and a `None` answer means everything fails.
pub proof fn lemma_first_ok_from(cands: Seq<CandidateModel>, i: int)
    requires
        0 <= i <= cands.len(),
    ensures
        match first_ok_from(cands, i) {
            Some(j) => i <= j < cands.len() && candidate_ok(cands[j]) && (forall|k: int|
                i <= k < j ==> !candidate_ok(cands[k])),
            None => forall|k: int| i <= k < cands.len() ==> !candidate_ok(cands[k]),
        },
    decreases cands.len() - i,
{
    if i < cands.len() && !candidate_ok(cands[i]) {
        lemma_first_ok_from(cands, i + 1);
    }
}

/// A position that is adoptable, with nothing adoptable before it, is
/// exactly what the search returns.
pub proof fn lemma_first_ok_is(cands: Seq<CandidateModel>, j: int)
    requires
        0 <= j < cands.len(),
        candidate_ok(cands[j]),
        forall|k: int| 0 <= k < j ==> !candidate_ok(cands[k]),
    ensures
        first_ok(cands) == Some(j),
{
    lemma_first_ok_from(cands, 0);
}

/// When nothing is adoptable, the search comes back empty.
pub proof fn lemma_first_ok_none(cands: Seq<CandidateModel>)
    requires
        forall|k: int| 0 <= k < cands.len() ==> !candidate_ok(cands[k]),
    ensures
        first_ok(cands) is None,
{
    lemma_first_ok_from(cands, 0);
}

/// What publication does to destination `k`, given the search's outcome.
pub open spec fn planned_action(cands: Seq<CandidateModel>, dests: Seq<DestModel>, k: int) -> DestAction {
    match first_ok(cands) {
        Some(i) => if dests[k].path == cands[i].path {
            DestAction::SkipSelfCopy
        } else {
            DestAction::CopyFromSource
        },
        None => match dests[k].existing {
            Some(_) => DestAction::LeaveExisting,
            None => DestAction::WriteSentinel,
        },
    }
}

/// What destination `k` holds once the plan has been executed: the
/// adopted content, or its own prior content (self-copy, or no valid
/// source found), or the sentinel fill.
pub open spec fn published_content(cands: Seq<CandidateModel>, dests: Seq<DestModel>, k: int) -> Option<
    Seq<u8>,
> {
    match first_ok(cands) {
        Some(i) => if dests[k].path == cands[i].path {
            dests[k].existing
        } else {
            cands[i].content
        },
        None => match dests[k].existing {
            Some(e) => Some(e),
            None => Some(sentinel()),
        },
    }
}

/// A found file, judged by the given rule.
pub open spec fn as_candidate(f: FoundModel, rule: ValidityRule) -> CandidateModel {
    CandidateModel { path: f.path, content: f.content, rule }
}

/// A destination's current file, offered as a candidate of its own
/// (re-running the publish step may adopt an earlier run's copy).
pub open spec fn dest_candidate(d: DestModel) -> CandidateModel {
    CandidateModel { path: d.path, content: d.existing, rule: ValidityRule::NonSentinel }
}

/// The ranked candidate list of the publisher, highest priority first:
/// the curated checked-in artifact, then the artifact generated at the
/// project root, then the destinations' own current copies, then the
/// scratch directory's files (fresh from the compiler, taken as they
/// are), then the files of the nested build-output layouts.
pub open spec fn standard_candidates(
    checked_in: FoundModel,
    project_root: FoundModel,
    dests: Seq<DestModel>,
    scratch: Seq<FoundModel>,
    nested: Seq<FoundModel>,
) -> Seq<CandidateModel> {
    seq![
        as_candidate(checked_in, ValidityRule::NonBlank),
        as_candidate(project_root, ValidityRule::NonSentinel),
    ] + dests.map_values(|d: DestModel| dest_candidate(d)) + scratch.map_values(
        |f: FoundModel| as_candidate(f, ValidityRule::AnyContent),
    ) + nested.map_values(|f: FoundModel| as_candidate(f, ValidityRule::NonSentinel))
}

/// Whether the search ends in the warn-and-fall-back path.
pub open spec fn fallback_warns(cands: Seq<CandidateModel>) -> bool {
    first_ok(cands) is None
}

/// Content that passes the strict validity check: it exists, is
/// non-empty, and is not the sentinel placeholder.
pub open spec fn valid_artifact(c: Option<Seq<u8>>) -> bool {
    match c {
        Some(b) => b.len() > 0 && b != sentinel(),
        None => false,
    }
}

/// Content that passes the curated artifact's check: it exists and does
/// not trim to nothing.
pub open spec fn curated_ok(c: Option<Seq<u8>>) -> bool {
    match c {
        Some(b) => !is_blank(b),
        None => false,
    }
}

/// Where each location stands in the ranked candidate list.
pub proof fn lemma_standard_index(
    checked_in: FoundModel,
    project_root: FoundModel,
    dests: Seq<DestModel>,
    scratch: Seq<FoundModel>,
    nested: Seq<FoundModel>,
)
    ensures
        ({
            let cs = standard_candidates(checked_in, project_root, dests, scratch, nested);
            &&& cs.len() == 2 + dests.len() + scratch.len() + nested.len()
            &&& cs[0] == as_candidate(checked_in, ValidityRule::NonBlank)
            &&& cs[1] == as_candidate(project_root, ValidityRule::NonSentinel)
            &&& forall|k: int| 0 <= k < dests.len() ==> cs[2 + k] == dest_candidate(dests[k])
            &&& forall|k: int| 0 <= k < scratch.len() ==> cs[2 + dests.len() + k]
                == as_candidate(scratch[k], ValidityRule::AnyContent)
            &&& forall|k: int| 0 <= k < nested.len() ==> cs[2 + dests.len() + scratch.len() + k]
                == as_candidate(nested[k], ValidityRule::NonSentinel)
        }),
{
    let head = seq![
        as_candidate(checked_in, ValidityRule::NonBlank),
        as_candidate(project_root, ValidityRule::NonSentinel),
    ];
    let m1 = dests.map_values(|d: DestModel| dest_candidate(d));
    let m2 = scratch.map_values(|f: FoundModel| as_candidate(f, ValidityRule::AnyContent));
    let m3 = nested.map_values(|f: FoundModel| as_candidate(f, ValidityRule::NonSentinel));
    let cs = standard_candidates(checked_in, project_root, dests, scratch, nested);
    assert(cs == head + m1 + m2 + m3);
    assert forall|k: int| 0 <= k < dests.len() implies cs[2 + k] == dest_candidate(dests[k]) by {
        assert(cs[2 + k] == m1[k]);
    }
    assert forall|k: int| 0 <= k < scratch.len() implies cs[2 + dests.len() + k] == as_candidate(
        scratch[k],
        ValidityRule::AnyContent,
    ) by {
        assert(cs[2 + dests.len() + k] == m2[k]);
    }
    assert forall|k: int| 0 <= k < nested.len() implies cs[2 + dests.len() + scratch.len() + k]
        == as_candidate(nested[k], ValidityRule::NonSentinel) by {
        assert(cs[2 + dests.len() + scratch.len() + k] == m3[k]);
    }
}

/// A plan that says of `cands` and `dests` exactly what the publisher
/// decides of them.
pub open spec fn plan_matches(p: PublishPlan, cands: Seq<CandidateModel>, dests: Seq<DestModel>) -> bool {
    &&& match p.source {
        Some(i) => first_ok(cands) == Some(i as int),
        None => first_ok(cands) is None,
    }
    &&& p.actions@.len() == dests.len()
    &&& forall|k: int| 0 <= k < dests.len() ==> p.actions@[k] == planned_action(cands, dests, k)
    &&& p.warn == fallback_warns(cands)
}

/// The sentinel placeholder as an owned value, for writing it out.
pub fn sentinel_bytes() -> (r: Vec<u8>)
    ensures
        r@ == sentinel(),
{
    let mut r: Vec<u8> = Vec::new();
    r.push(48);
    r.push(120);
    r.push(48);
    r.push(48);
    proof {
        assert(r@ =~= sentinel());
    }
    r
}

/// Whether `v` holds exactly the sentinel placeholder.
fn is_sentinel_bytes(v: &Vec<u8>) -> (r: bool)
    ensures
        r == (v@ == sentinel()),
{
    if v.len() != 4 {
        proof {
            assert(v@ != sentinel());
        }
        return false;
    }
    let r = v[0] == 48 && v[1] == 120 && v[2] == 48 && v[3] == 48;
    proof {
        if r {
            assert(v@ =~= sentinel());
        } else {
            assert(v@ != sentinel());
        }
    }
    r
}

/// Whether `v` trims to nothing.
fn is_blank_bytes(v: &Vec<u8>) -> (r: bool)
    ensures
        r == is_blank(v@),
{
    let mut i: usize = 0;
    while i < v.len()
        invariant
            i <= v.len(),
            forall|k: int| 0 <= k < i ==> is_space(v@[k]),
        decreases v.len() - i,
    {
        let b = v[i];
        if !(b == 32 || b == 9 || b == 10 || b == 13) {
            return false;
        }
        i = i + 1;
    }
    true
}

/// Whether content passes a validity rule (the executable side of
/// [`rule_accepts`]).
fn content_passes(rule: ValidityRule, content: &Vec<u8>) -> (r: bool)
    ensures
        r == rule_accepts(rule, content@),
{
    match rule {
        ValidityRule::NonBlank => !is_blank_bytes(content),
        ValidityRule::NonSentinel => content.len() > 0 && !is_sentinel_bytes(content),
        ValidityRule::AnyContent => true,
    }
}

/// Whether a candidate may be adopted (the executable side of
/// [`candidate_ok`]).
fn candidate_passes(c: &CandidateFile) -> (r: bool)
    ensures
        r == candidate_ok(c@),
{
    match &c.content {
        Some(b) => content_passes(c.rule, b),
        None => false,
    }
}

/// Byte-for-byte equality of two contents.
fn bytes_equal(a: &Vec<u8>, b: &Vec<u8>) -> (r: bool)
    ensures
        r == (a@ == b@),
{
    if a.len() != b.len() {
        proof {
            assert(a@ != b@);
        }
        return false;
    }
    let mut i: usize = 0;
    while i < a.len()
        invariant
            i <= a.len(),
            a.len() == b.len(),
            forall|k: int| 0 <= k < i ==> a@[k] == b@[k],
        decreases a.len() - i,
    {
        if a[i] != b[i] {
            return false;
        }
        i = i + 1;
    }
    proof {
        assert(a@ =~= b@);
    }
    true
}

/// A fresh copy of a content, byte for byte.
fn copy_bytes(v: &Vec<u8>) -> (r: Vec<u8>)
    ensures
        r@ == v@,
{
    let mut r: Vec<u8> = Vec::new();
    let mut i: usize = 0;
    while i < v.len()
        invariant
            i <= v.len(),
            r@ == v@.subrange(0, i as int),
        decreases v.len() - i,
    {
        r.push(v[i]);
        proof {
            assert(r@ =~= v@.subrange(0, i as int + 1));
        }
        i = i + 1;
    }
    proof {
        assert(r@ =~= v@);
    }
    r
}

/// A fresh copy of an optional content.
fn copy_opt_bytes(v: &Option<Vec<u8>>) -> (r: Option<Vec<u8>>)
    ensures
        opt_view(r) == opt_view(*v),
{
    match v {
        Some(b) => Some(copy_bytes(b)),
        None => None,
    }
}

/// First-match-wins search over the ranked candidate list.
pub fn select_candidate(cands: &Vec<CandidateFile>) -> (chosen: Option<usize>)
    ensures
        match chosen {
            Some(i) => i < cands@.len() && first_ok(cand_views(cands@)) == Some(i as int),
            None => first_ok(cand_views(cands@)) is None,
        },
{
    let mut i: usize = 0;
    while i < cands.len()
        invariant
            i <= cands.len(),
            forall|k: int| 0 <= k < i ==> !candidate_ok(cand_views(cands@)[k]),
        decreases cands.len() - i,
    {
        if candidate_passes(&cands[i]) {
            proof {
                assert(cand_views(cands@)[i as int] == cands@[i as int]@);
                lemma_first_ok_is(cand_views(cands@), i as int);
            }
            return Some(i);
        }
        proof {
            assert(cand_views(cands@)[i as int] == cands@[i as int]@);
        }
        i = i + 1;
    }
    proof {
        lemma_first_ok_none(cand_views(cands@));
    }
    None
}

/// The publisher's decision: search the candidates, then settle what
/// happens to each destination. Never fails; a fruitless search becomes
/// sentinel fills plus a warning.
pub fn plan_publication(cands: &Vec<CandidateFile>, dests: &Vec<DestFile>) -> (p: PublishPlan)
    ensures
        plan_matches(p, cand_views(cands@), dest_views(dests@)),
{
    let source = select_candidate(cands);
    let mut actions: Vec<DestAction> = Vec::new();
    let mut k: usize = 0;
    while k < dests.len()
        invariant
            k <= dests.len(),
            actions.len() == k,
            forall|j: int| 0 <= j < k ==> actions@[j] == planned_action(
                cand_views(cands@),
                dest_views(dests@),
                j,
            ),
            match source {
                Some(i) => i < cands@.len() && first_ok(cand_views(cands@)) == Some(i as int),
                None => first_ok(cand_views(cands@)) is None,
            },
        decreases dests.len() - k,
    {
        proof {
            assert(dest_views(dests@)[k as int] == dests@[k as int]@);
        }
        let action = match source {
            Some(i) => {
                proof {
                    assert(cand_views(cands@)[i as int] == cands@[i as int]@);
                }
                if bytes_equal(&dests[k].path, &cands[i].path) {
                    DestAction::SkipSelfCopy
                } else {
                    DestAction::CopyFromSource
                }
            },
            None => {
                match &dests[k].existing {
                    Some(_) => DestAction::LeaveExisting,
                    None => DestAction::WriteSentinel,
                }
            },
        };
        actions.push(action);
        k = k + 1;
    }
    let warn = source.is_none();
    PublishPlan { source, actions, warn }
}

/// The contents the destinations hold after a faithful execution of the
/// plan: the in-memory meaning of copy, skip, leave and fill.
pub fn resulting_contents(cands: &Vec<CandidateFile>, dests: &Vec<DestFile>, p: &PublishPlan) -> (r:
    Vec<Option<Vec<u8>>>)
    requires
        plan_matches(*p, cand_views(cands@), dest_views(dests@)),
    ensures
        r@.len() == dests@.len(),
        forall|k: int| 0 <= k < dests@.len() ==> opt_view(r@[k]) == published_content(
            cand_views(cands@),
            dest_views(dests@),
            k,
        ),
{
    let mut r: Vec<Option<Vec<u8>>> = Vec::new();
    let mut k: usize = 0;
    while k < dests.len()
        invariant
            k <= dests.len(),
            r.len() == k,
            plan_matches(*p, cand_views(cands@), dest_views(dests@)),
            forall|j: int| 0 <= j < k ==> opt_view(r@[j]) == published_content(
                cand_views(cands@),
                dest_views(dests@),
                j,
            ),
        decreases dests.len() - k,
    {
        proof {
            assert(p.actions@[k as int] == planned_action(cand_views(cands@), dest_views(dests@), k as int));
            assert(dest_views(dests@)[k as int] == dests@[k as int]@);
        }
        let entry = match &p.actions[k] {
            DestAction::CopyFromSource => {
                let i = match p.source {
                    Some(i) => i,
                    None => {
                        proof {
                            assert(false);
                        }
                        0
                    },
                };
                proof {
                    lemma_first_ok_from(cand_views(cands@), 0);
                    assert(cand_views(cands@)[i as int] == cands@[i as int]@);
                }
                match &cands[i].content {
                    Some(b) => Some(copy_bytes(b)),
                    None => None,
                }
            },
            DestAction::SkipSelfCopy => copy_opt_bytes(&dests[k].existing),
            DestAction::LeaveExisting => copy_opt_bytes(&dests[k].existing),
            DestAction::WriteSentinel => Some(sentinel_bytes()),
        };
        r.push(entry);
        k = k + 1;
    }
    r
}

/// The `.idl` suffix of the canonical artifact name, as bytes.
pub open spec fn idl_suffix() -> Seq<u8> {
    seq![46u8, 105u8, 100u8, 108u8]
}

/// The canonical artifact filename: the program's identifier plus the
/// fixed `.idl` suffix.
pub fn artifact_file_name(program_id: &Vec<u8>) -> (r: Vec<u8>)
    ensures
        r@ == program_id@ + idl_suffix(),
{
    let mut r = copy_bytes(program_id);
    r.push(46);
    r.push(105);
    r.push(100);
    r.push(108);
    proof {
        assert(r@ =~= program_id@ + idl_suffix());
    }
    r
}

/// A directory path joined with a file name by a single separator.
pub fn join_path(dir: &Vec<u8>, file: &Vec<u8>) -> (r: Vec<u8>)
    ensures
        r@ == dir@ + seq![47u8] + file@,
{
    let mut r = copy_bytes(dir);
    r.push(47);
    let mut i: usize = 0;
    while i < file.len()
        invariant
            i <= file.len(),
            r@ == dir@ + seq![47u8] + file@.subrange(0, i as int),
        decreases file.len() - i,
    {
        r.push(file[i]);
        proof {
            assert(r@ =~= dir@ + seq![47u8] + file@.subrange(0, i as int + 1));
        }
        i = i + 1;
    }
    proof {
        assert(r@ =~= dir@ + seq![47u8] + file@);
    }
    r
}

/// Assemble the ranked candidate list out of what the search locations
/// hold, in the publisher's fixed priority order.
pub fn build_candidates(
    checked_in: &FoundArtifact,
    project_root: &FoundArtifact,
    dests: &Vec<DestFile>,
    scratch: &Vec<FoundArtifact>,
    nested: &Vec<FoundArtifact>,
) -> (cands: Vec<CandidateFile>)
    ensures
        cand_views(cands@) == standard_candidates(
            checked_in@,
            project_root@,
            dest_views(dests@),
            found_views(scratch@),
            found_views(nested@),
        ),
{
    let ghost target = standard_candidates(
        checked_in@,
        project_root@,
        dest_views(dests@),
        found_views(scratch@),
        found_views(nested@),
    );
    let mut cands: Vec<CandidateFile> = Vec::new();
    cands.push(
        CandidateFile {
            path: copy_bytes(&checked_in.path),
            content: copy_opt_bytes(&checked_in.content),
            rule: ValidityRule::NonBlank,
        },
    );
    cands.push(
        CandidateFile {
            path: copy_bytes(&project_root.path),
            content: copy_opt_bytes(&project_root.content),
            rule: ValidityRule::NonSentinel,
        },
    );
    proof {
        assert(cands@[0]@ =~= target[0]);
        assert(cands@[1]@ =~= target[1]);
        assert(cand_views(cands@) =~= target.subrange(0, 2));
    }
    let mut k: usize = 0;
    while k < dests.len()
        invariant
            k <= dests.len(),
            cands@.len() == 2 + k,
            target == standard_candidates(
                checked_in@,
                project_root@,
                dest_views(dests@),
                found_views(scratch@),
                found_views(nested@),
            ),
            cand_views(cands@) == target.subrange(0, 2 + k as int),
        decreases dests.len() - k,
    {
        let c = CandidateFile {
            path: copy_bytes(&dests[k].path),
            content: copy_opt_bytes(&dests[k].existing),
            rule: ValidityRule::NonSentinel,
        };
        proof {
            assert(dest_views(dests@)[k as int] == dests@[k as int]@);
            assert(target[2 + k as int] == dest_candidate(dest_views(dests@)[k as int]));
            assert(c@ =~= target[2 + k as int]);
        }
        cands.push(c);
        proof {
            assert(cand_views(cands@) =~= target.subrange(0, 2 + k as int + 1));
        }
        k = k + 1;
    }
    let ghost base1 = 2 + dests@.len();
    let mut k: usize = 0;
    while k < scratch.len()
        invariant
            k <= scratch.len(),
            cands@.len() == base1 + k,
            base1 == 2 + dests@.len(),
            target == standard_candidates(
                checked_in@,
                project_root@,
                dest_views(dests@),
                found_views(scratch@),
                found_views(nested@),
            ),
            cand_views(cands@) == target.subrange(0, base1 + k as int),
        decreases scratch.len() - k,
    {
        let c = CandidateFile {
            path: copy_bytes(&scratch[k].path),
            content: copy_opt_bytes(&scratch[k].content),
            rule: ValidityRule::AnyContent,
        };
        proof {
            assert(found_views(scratch@)[k as int] == scratch@[k as int]@);
            assert(target[base1 + k as int] == as_candidate(
                found_views(scratch@)[k as int],
                ValidityRule::AnyContent,
            ));
            assert(c@ =~= target[base1 + k as int]);
        }
        cands.push(c);
        proof {
            assert(cand_views(cands@) =~= target.subrange(0, base1 + k as int + 1));
        }
        k = k + 1;
    }
    let ghost base2 = 2 + dests@.len() + scratch@.len();
    let mut k: usize = 0;
    while k < nested.len()
        invariant
            k <= nested.len(),
            cands@.len() == base2 + k,
            base2 == 2 + dests@.len() + scratch@.len(),
            target == standard_candidates(
                checked_in@,
                project_root@,
                dest_views(dests@),
                found_views(scratch@),
                found_views(nested@),
            ),
            cand_views(cands@) == target.subrange(0, base2 + k as int),
        decreases nested.len() - k,
    {
        let c = CandidateFile {
            path: copy_bytes(&nested[k].path),
            content: copy_opt_bytes(&nested[k].content),
            rule: ValidityRule::NonSentinel,
        };
        proof {
            assert(found_views(nested@)[k as int] == nested@[k as int]@);
            assert(target[base2 + k as int] == as_candidate(
                found_views(nested@)[k as int],
                ValidityRule::NonSentinel,
            ));
            assert(c@ =~= target[base2 + k as int]);
        }
        cands.push(c);
        proof {
            assert(cand_views(cands@) =~= target.subrange(0, base2 + k as int + 1));
        }
        k = k + 1;
    }
    proof {
        assert(cand_views(cands@) =~= target);
    }
    cands
}

/// The whole publisher decision in one step: rank the candidate
/// locations and settle what happens to each destination. Returns the
/// ranked candidates too, since executing a copy needs the adopted
/// candidate's path.
pub fn plan_for_locations(
    checked_in: &FoundArtifact,
    project_root: &FoundArtifact,
    dests: &Vec<DestFile>,
    scratch: &Vec<FoundArtifact>,
    nested: &Vec<FoundArtifact>,
) -> (r: (Vec<CandidateFile>, PublishPlan))
    ensures
        cand_views(r.0@) == standard_candidates(
            checked_in@,
            project_root@,
            dest_views(dests@),
            found_views(scratch@),
            found_views(nested@),
        ),
        plan_matches(r.1, cand_views(r.0@), dest_views(dests@)),
{
    let cands = build_candidates(checked_in, project_root, dests, scratch, nested);
    let plan = plan_publication(&cands, dests);
    (cands, plan)
}

/// The curated, checked-in artifact always wins. Whenever it holds
/// usable content, the search adopts it — ahead of the project-root
/// artifact and everything below — and every destination ends up holding
/// exactly that content, byte for byte, whatever the lower-priority
/// locations held. No warning is emitted.
pub proof fn lemma_checked_in_wins(
    checked_in: FoundModel,
    project_root: FoundModel,
    dests: Seq<DestModel>,
    scratch: Seq<FoundModel>,
    nested: Seq<FoundModel>,
)
    requires
        curated_ok(checked_in.content),
        // a destination that is the checked-in file itself already holds its content
        forall|k: int| 0 <= k < dests.len() && dests[k].path == checked_in.path
            ==> dests[k].existing == checked_in.content,
    ensures
        ({
            let cs = standard_candidates(checked_in, project_root, dests, scratch, nested);
            &&& first_ok(cs) == Some(0int)
            &&& !fallback_warns(cs)
            &&& forall|k: int| 0 <= k < dests.len() ==> published_content(cs, dests, k)
                == checked_in.content
        }),
{
    let cs = standard_candidates(checked_in, project_root, dests, scratch, nested);
    lemma_standard_index(checked_in, project_root, dests, scratch, nested);
    assert(candidate_ok(cs[0]));
    lemma_first_ok_is(cs, 0);
}

/// When no location anywhere holds usable content, the search fails:
/// a warning is called for, every destination that has no file at all is
/// filled with the sentinel placeholder, and every destination that does
/// hold a file — however invalid — keeps it untouched.
pub proof fn lemma_exhausted_search_falls_back(
    checked_in: FoundModel,
    project_root: FoundModel,
    dests: Seq<DestModel>,
    scratch: Seq<FoundModel>,
    nested: Seq<FoundModel>,
)
    requires
        !curated_ok(checked_in.content),
        !valid_artifact(project_root.content),
        forall|k: int| 0 <= k < dests.len() ==> !valid_artifact(dests[k].existing),
        forall|k: int| 0 <= k < scratch.len() ==> scratch[k].content is None,
        forall|k: int| 0 <= k < nested.len() ==> !valid_artifact(nested[k].content),
    ensures
        ({
            let cs = standard_candidates(checked_in, project_root, dests, scratch, nested);
            &&& fallback_warns(cs)
            &&& forall|k: int| 0 <= k < dests.len() && dests[k].existing is None
                ==> published_content(cs, dests, k) == Some(sentinel())
            &&& forall|k: int| 0 <= k < dests.len() && dests[k].existing is Some
                ==> published_content(cs, dests, k) == dests[k].existing
                    && planned_action(cs, dests, k) == DestAction::LeaveExisting
            &&& (forall|k: int| 0 <= k < dests.len()
                ==> dests[k].existing is None || dests[k].existing == Some(sentinel()))
                ==> forall|k: int| 0 <= k < dests.len()
                    ==> published_content(cs, dests, k) == Some(sentinel())
        }),
{
    let cs = standard_candidates(checked_in, project_root, dests, scratch, nested);
    lemma_standard_index(checked_in, project_root, dests, scratch, nested);
    assert forall|i: int| 0 <= i < cs.len() implies !candidate_ok(cs[i]) by {
        if i >= 2 && i < 2 + dests.len() {
            assert(cs[i] == dest_candidate(dests[i - 2]));
        } else if i >= 2 + dests.len() && i < 2 + dests.len() + scratch.len() {
            assert(cs[i] == as_candidate(scratch[i - 2 - dests.len()], ValidityRule::AnyContent));
        } else if i >= 2 + dests.len() + scratch.len() {
            assert(cs[i] == as_candidate(
                nested[i - 2 - dests.len() - scratch.len()],
                ValidityRule::NonSentinel,
            ));
        }
    }
    lemma_first_ok_none(cs);
}

/// Adopting a candidate that is one of the destination files themselves
/// is harmless: that destination is skipped rather than copied onto
/// itself and keeps its content — which is the adopted content — while
/// every other destination still receives the copy.
pub proof fn lemma_self_copy_safe(cands: Seq<CandidateModel>, dests: Seq<DestModel>, i: int, k: int)
    requires
        first_ok(cands) == Some(i),
        0 <= k < dests.len(),
        dests[k].path == cands[i].path,
        // the destination and the adopted candidate are the same file,
        // so they hold the same content
        dests[k].existing == cands[i].content,
    ensures
        planned_action(cands, dests, k) == DestAction::SkipSelfCopy,
        published_content(cands, dests, k) == cands[i].content,
        forall|j: int| 0 <= j < dests.len() && dests[j].path != cands[i].path
            ==> planned_action(cands, dests, j) == DestAction::CopyFromSource
                && published_content(cands, dests, j) == cands[i].content,
{
    lemma_first_ok_from(cands, 0);
}

/// Running the publisher a second time with the same inputs changes
/// nothing: once the destinations hold what the first run published,
/// a second run publishes exactly the same contents. The searched
/// locations must be actual distinct files: the destinations are
/// pairwise distinct paths and no other searched location is one of
/// them.
pub proof fn lemma_publish_idempotent(
    checked_in: FoundModel,
    project_root: FoundModel,
    dests1: Seq<DestModel>,
    dests2: Seq<DestModel>,
    scratch: Seq<FoundModel>,
    nested: Seq<FoundModel>,
)
    requires
        // the second run sees the same locations, with the destinations
        // now holding what the first run published
        dests2.len() == dests1.len(),
        forall|k: int| 0 <= k < dests1.len() ==> dests2[k].path == dests1[k].path,
        forall|k: int| 0 <= k < dests1.len() ==> dests2[k].existing == published_content(
            standard_candidates(checked_in, project_root, dests1, scratch, nested),
            dests1,
            k,
        ),
        // the destinations are pairwise distinct files
        forall|k: int, j: int| 0 <= k < j < dests1.len() ==> dests1[k].path != dests1[j].path,
        // no other searched location is one of the destination files
        forall|k: int| 0 <= k < dests1.len() ==> dests1[k].path != checked_in.path,
        forall|k: int| 0 <= k < dests1.len() ==> dests1[k].path != project_root.path,
        forall|k: int, j: int| 0 <= k < dests1.len() && 0 <= j < scratch.len()
            ==> dests1[k].path != scratch[j].path,
        forall|k: int, j: int| 0 <= k < dests1.len() && 0 <= j < nested.len()
            ==> dests1[k].path != nested[j].path,
    ensures
        forall|k: int| 0 <= k < dests1.len() ==> published_content(
            standard_candidates(checked_in, project_root, dests2, scratch, nested),
            dests2,
            k,
        ) == published_content(
            standard_candidates(checked_in, project_root, dests1, scratch, nested),
            dests1,
            k,
        ),
{
    let cs1 = standard_candidates(checked_in, project_root, dests1, scratch, nested);
    let cs2 = standard_candidates(checked_in, project_root, dests2, scratch, nested);
    let d = dests1.len() as int;
    lemma_standard_index(checked_in, project_root, dests1, scratch, nested);
    lemma_standard_index(checked_in, project_root, dests2, scratch, nested);
    lemma_first_ok_from(cs1, 0);
    if first_ok(cs1) is None {
        // The first run fell back: every destination now holds its old
        // (invalid) file or the sentinel, so the second search fails too
        // and leaves every destination as it is.
        assert forall|i: int| 0 <= i < cs2.len() implies !candidate_ok(cs2[i]) by {
            if 2 <= i < 2 + d {
                let k = i - 2;
                assert(dests2[k].existing == published_content(cs1, dests1, k));
                assert(cs2[i] == dest_candidate(dests2[k]));
                assert(!candidate_ok(cs1[i]));
                assert(cs1[i] == dest_candidate(dests1[k]));
            } else if i < 2 {
                assert(cs2[i] == cs1[i]);
            } else if i < 2 + d + scratch.len() {
                assert(cs2[i] == as_candidate(scratch[i - 2 - d], ValidityRule::AnyContent));
                assert(cs1[i] == cs2[i]);
            } else {
                assert(cs2[i] == as_candidate(
                    nested[i - 2 - d - scratch.len()],
                    ValidityRule::NonSentinel,
                ));
                assert(cs1[i] == cs2[i]);
            }
        }
        lemma_first_ok_none(cs2);
        assert forall|k: int| 0 <= k < d implies published_content(cs2, dests2, k)
            == published_content(cs1, dests1, k) by {
            assert(dests2[k].existing == published_content(cs1, dests1, k));
            assert(dests2[k].existing is Some);
        }
    } else {
        let i = first_ok(cs1)->0;
        // The adopted content of the first run.
        let adopted = cs1[i].content;
        assert(adopted is Some);
        // After the first run, every destination holds the adopted content.
        assert forall|k: int| 0 <= k < d implies published_content(cs1, dests1, k) == adopted by {
            if dests1[k].path == cs1[i].path {
                // the adopted candidate is a destination file itself
                if i < 2 {
                    assert(false);
                } else if i < 2 + d {
                    assert(cs1[i] == dest_candidate(dests1[i - 2]));
                    assert(k == i - 2);
                } else if i < 2 + d + scratch.len() {
                    assert(cs1[i] == as_candidate(scratch[i - 2 - d], ValidityRule::AnyContent));
                    assert(false);
                } else {
                    assert(cs1[i] == as_candidate(
                        nested[i - 2 - d - scratch.len()],
                        ValidityRule::NonSentinel,
                    ));
                    assert(false);
                }
            }
        }
        if i < 2 {
            // The checked-in or project-root artifact was adopted; the
            // second run adopts the very same candidate.
            assert(cs2[i] == cs1[i]);
            assert forall|m: int| 0 <= m < i implies !candidate_ok(cs2[m]) by {
                assert(cs2[m] == cs1[m]);
            }
            lemma_first_ok_is(cs2, i);
            assert forall|k: int| 0 <= k < d implies published_content(cs2, dests2, k)
                == published_content(cs1, dests1, k) by {
                assert(dests2[k].path == dests1[k].path);
                assert(dests1[k].path != cs1[i].path);
            }
        } else {
            // Something below the two curated spots was adopted, so its
            // content now sits in every destination. Whether the second
            // run re-adopts the first destination's copy or the same
            // lower candidate again, the published contents are the same.
            assert(!candidate_ok(cs1[0]) && !candidate_ok(cs1[1]));
            assert(cs2[0] == cs1[0] && cs2[1] == cs1[1]);
            if d == 0 {
                // no destinations: nothing was published either time
            } else if valid_artifact(adopted) {
                // the first destination's copy is itself adoptable now
                assert(dests2[0].existing == published_content(cs1, dests1, 0));
                assert(published_content(cs1, dests1, 0) == adopted);
                assert(cs2[2] == dest_candidate(dests2[0]));
                assert(candidate_ok(cs2[2]));
                lemma_first_ok_is(cs2, 2);
                assert forall|k: int| 0 <= k < d implies published_content(cs2, dests2, k)
                    == published_content(cs1, dests1, k) by {
                    assert(dests2[k].existing == adopted);
                    if k == 0 {
                        assert(dests2[k].path == cs2[2].path);
                    } else {
                        assert(dests1[0].path != dests1[k].path);
                        assert(dests2[k].path != cs2[2].path);
                    }
                }
            } else {
                // only a scratch file taken on trust can be invalid; the
                // destinations' copies of it are not adoptable, and the
                // second search walks past them to the same candidate
                assert(2 + d <= i);
                assert forall|m: int| 0 <= m < i implies !candidate_ok(cs2[m]) by {
                    if 2 <= m < 2 + d {
                        assert(cs2[m] == dest_candidate(dests2[m - 2]));
                        assert(dests2[m - 2].existing == published_content(cs1, dests1, m - 2));
                        assert(published_content(cs1, dests1, m - 2) == adopted);
                    } else if m < 2 {
                        assert(cs2[m] == cs1[m]);
                    } else if m < 2 + d + scratch.len() {
                        assert(cs2[m] == as_candidate(scratch[m - 2 - d], ValidityRule::AnyContent));
                        assert(cs1[m] == cs2[m]);
                    } else {
                        assert(cs2[m] == as_candidate(
                            nested[m - 2 - d - scratch.len()],
                            ValidityRule::NonSentinel,
                        ));
                        assert(cs1[m] == cs2[m]);
                    }
                }
                assert(cs2[i] == cs1[i]) by {
                    if i < 2 + d + scratch.len() {
                        assert(cs1[i] == as_candidate(scratch[i - 2 - d], ValidityRule::AnyContent));
                        assert(cs2[i] == as_candidate(scratch[i - 2 - d], ValidityRule::AnyContent));
                    } else {
                        assert(cs1[i] == as_candidate(
                            nested[i - 2 - d - scratch.len()],
                            ValidityRule::NonSentinel,
                        ));
                        assert(cs2[i] == as_candidate(
                            nested[i - 2 - d - scratch.len()],
                            ValidityRule::NonSentinel,
                        ));
                    }
                };
                lemma_first_ok_is(cs2, i);
                assert forall|k: int| 0 <= k < d implies published_content(cs2, dests2, k)
                    == published_content(cs1, dests1, k) by {
                    assert(dests1[k].path != cs1[i].path);
                    assert(dests2[k].path == dests1[k].path);
                }
            }
        }
    }
}

} // verus!
