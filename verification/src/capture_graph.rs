//! The read-only capture graph of an imported agent session: which indexed
//! turn claims are committed turns (checked against their revision
//! history), the checks that every turn, revision and subagent link stays
//! inside the captured session, and the safe display of a session id.
use vstd::prelude::*;

use crate::text::{chars_of, concat, concat3, is_control, is_control_char, push_char, str_eq, word_is};

verus! {

/// Command-line arguments of `libra agent graph`: the captured session id,
/// and the repository to inspect instead of the current one.
#[derive(Debug, Clone)]
pub struct GraphArgs {
    pub session: String,
    pub repo: Option<String>,
}

// ---------------------------------------------------------------------------
// Safe display
// ---------------------------------------------------------------------------

/// The characters of `s` that are not control characters.
pub open spec fn printable(s: Seq<char>) -> Seq<char>
    decreases s.len(),
{
    if s.len() == 0 {
        s
    } else if is_control(s.last()) {
        printable(s.drop_last())
    } else {
        printable(s.drop_last()).push(s.last())
    }
}

/// A value shown in an error: its printable characters, at most 160 of
/// them, followed by `...` when more were dropped.
pub open spec fn safe_display_of(s: Seq<char>) -> Seq<char> {
    if printable(s).len() > 160 {
        printable(s).take(160) + "..."@
    } else {
        printable(s)
    }
}

/// The value as it may be shown in an error message.
pub fn safe_display(value: &str) -> (r: String)
    ensures
        r@ == safe_display_of(value@),
{
    let v = chars_of(value);
    let mut out = String::new();
    let mut count: usize = 0;
    let mut i: usize = 0;
    while i < v.len()
        invariant
            i <= v.len(),
            v@ == value@,
            count == printable(v@.subrange(0, i as int)).len(),
            count <= i,
            out@ == printable(v@.subrange(0, i as int)).take(
                if count <= 160 { count as int } else { 160 },
            ),
        decreases v.len() - i,
    {
        let c = v[i];
        let ghost pre = v@.subrange(0, i as int);
        assert(v@.subrange(0, i + 1).drop_last() =~= pre);
        if !is_control_char(c) {
            if count < 160 {
                push_char(&mut out, c);
            }
            count += 1;
            assert(out@ =~= printable(v@.subrange(0, i + 1)).take(
                if count <= 160 { count as int } else { 160 },
            ));
        }
        i += 1;
    }
    assert(v@.subrange(0, v.len() as int) =~= v@);
    if count > 160 {
        out = concat(out.as_str(), "...");
    } else {
        assert(printable(value@).take(count as int) =~= printable(value@));
    }
    out
}

// ---------------------------------------------------------------------------
// Errors
// ---------------------------------------------------------------------------

/// A capture-graph failure: what failed and what to run next.
#[derive(Debug, Clone)]
pub struct CaptureGraphError {
    pub message: String,
    pub hint: String,
}

/// The hint given with every capture-store inconsistency.
pub open spec fn store_hint() -> Seq<char> {
    "run `libra agent doctor` to inspect the capture catalog."@
}

/// The inconsistency reported for a failed `action`.
pub fn graph_store_error(action: &str) -> (r: CaptureGraphError)
    ensures
        r.message@ == "failed to "@ + action@,
        r.hint@ == store_hint(),
{
    CaptureGraphError {
        message: concat("failed to ", action),
        hint: String::from_str("run `libra agent doctor` to inspect the capture catalog."),
    }
}

/// The refusal for a session id that names no captured session.
pub fn session_unknown_error(session_id: &str) -> (r: CaptureGraphError)
    ensures
        r.message@ == "captured agent session '"@ + safe_display_of(session_id@) + "' is unknown"@,
        r.hint@ == "run `libra agent session list` and pass its exact session_id."@,
{
    let shown = safe_display(session_id);
    CaptureGraphError {
        message: concat3("captured agent session '", shown.as_str(), "' is unknown"),
        hint: String::from_str("run `libra agent session list` and pass its exact session_id."),
    }
}

// ---------------------------------------------------------------------------
// Indexed turns
// ---------------------------------------------------------------------------

/// One committed revision of a turn.
#[derive(Debug, Clone, PartialEq, Eq)]
pub struct RevisionOutput {
    pub revision: i64,
    pub completeness: String,
    pub checkpoint_id: String,
    pub source_channel: String,
    pub created_at: i64,
}

/// The current coverage claim of a turn.
#[derive(Debug, Clone)]
pub struct ClaimRow {
    pub logical_turn_key: String,
    pub coverage_schema_version: i64,
    pub state: String,
    pub completeness: String,
    pub revision: i64,
    pub checkpoint_id: String,
    pub source_channel: String,
}

/// The revision history of one turn key and coverage schema version.
#[derive(Debug, Clone)]
pub struct RevisionGroup {
    pub logical_turn_key: String,
    pub coverage_schema_version: i64,
    pub revisions: Vec<RevisionOutput>,
}

/// One turn of the capture graph.
#[derive(Debug, Clone)]
pub struct TurnOutput {
    pub logical_turn_key: String,
    pub ordinal: usize,
    pub coverage_schema_version: Option<i64>,
    pub coverage_state: String,
    pub completeness: Option<String>,
    pub current_revision: Option<i64>,
    pub checkpoint_id: Option<String>,
    pub source_channel: Option<String>,
    pub revisions: Vec<RevisionOutput>,
}

/// Whether a group holds the history of `key` at coverage version `ver`.
pub open spec fn group_is(g: RevisionGroup, key: Seq<char>, ver: i64) -> bool {
    g.logical_turn_key@ == key && g.coverage_schema_version == ver
}

/// No two groups share a key (they are the entries of a map).
pub open spec fn unique_groups(groups: Seq<RevisionGroup>) -> bool {
    forall|i: int, j: int|
        #![trigger groups[i], groups[j]]
        0 <= i < groups.len() && 0 <= j < groups.len() && i != j ==> !group_is(
            groups[i],
            groups[j].logical_turn_key@,
            groups[j].coverage_schema_version,
        )
}

/// The group of `key` at `ver`, if any.
pub open spec fn group_for(groups: Seq<RevisionGroup>, key: Seq<char>, ver: i64) -> Option<int> {
    if exists|i: int| 0 <= i < groups.len() && group_is(#[trigger] groups[i], key, ver) {
        Some(choose|i: int| 0 <= i < groups.len() && group_is(#[trigger] groups[i], key, ver))
    } else {
        None
    }
}

/// The first revision of a history numbered `rev`.
pub open spec fn first_revision(history: Seq<RevisionOutput>, rev: i64) -> Option<int>
    decreases history.len(),
{
    if history.len() == 0 {
        None
    } else if history[0].revision == rev {
        Some(0)
    } else {
        match first_revision(history.drop_first(), rev) {
            Some(k) => Some(k + 1),
            None => None,
        }
    }
}

/// States whose claim metadata must agree with the current revision.
pub open spec fn committed_state(state: Seq<char>) -> bool {
    state == "catalog_committed"@ || state == "conflicted"@
}

/// Whether group `g` already gave a turn.
pub open spec fn group_used(pairs: Seq<(int, int)>, g: int) -> bool {
    exists|k: int| 0 <= k < pairs.len() && (#[trigger] pairs[k]).1 == g
}

/// Which claims become committed turns, each with its history group, or
/// the check that failed. A claim without a history (a reservation, or a
/// key whose history another claim took) is not a committed turn.
pub open spec fn accepted(claims: Seq<ClaimRow>, groups: Seq<RevisionGroup>) -> Result<
    Seq<(int, int)>,
    Seq<char>,
>
    decreases claims.len(),
{
    if claims.len() == 0 {
        Ok(Seq::empty())
    } else {
        let n = claims.len() - 1;
        let c = claims[n];
        match accepted(claims.drop_last(), groups) {
            Err(a) => Err(a),
            Ok(pairs) => match group_for(groups, c.logical_turn_key@, c.coverage_schema_version) {
                None => Ok(pairs),
                Some(g) => if group_used(pairs, g) {
                    Ok(pairs)
                } else {
                    match first_revision(groups[g].revisions@, c.revision) {
                        None => Err("validate the current turn against revision history"@),
                        Some(r) => {
                            let cur = groups[g].revisions@[r];
                            if cur.checkpoint_id@ != c.checkpoint_id@ {
                                Err("validate the current turn checkpoint against its revision"@)
                            } else if committed_state(c.state@) && (cur.completeness@
                                != c.completeness@ || cur.source_channel@ != c.source_channel@) {
                                Err("validate current turn metadata against its revision"@)
                            } else {
                                Ok(pairs.push((n, g)))
                            }
                        },
                    }
                },
            },
        }
    }
}

/// Whether `t` is the `k`-th committed turn, of claim `c` with history `g`.
pub open spec fn indexed_turn(t: TurnOutput, c: ClaimRow, g: RevisionGroup, k: int) -> bool {
    let cur = g.revisions@[first_revision(g.revisions@, c.revision)->Some_0];
    &&& t.logical_turn_key@ == c.logical_turn_key@
    &&& t.ordinal == k
    &&& t.coverage_schema_version == Some(c.coverage_schema_version)
    &&& t.coverage_state@ == "indexed"@
    &&& t.completeness matches Some(x) && x@ == cur.completeness@
    &&& t.current_revision == Some(c.revision)
    &&& t.checkpoint_id matches Some(x) && x@ == c.checkpoint_id@
    &&& t.source_channel matches Some(x) && x@ == cur.source_channel@
    &&& t.revisions@ == g.revisions@
}

proof fn lemma_refusal_persists(claims: Seq<ClaimRow>, groups: Seq<RevisionGroup>, n: int)
    requires
        0 <= n <= claims.len(),
        accepted(claims.subrange(0, n), groups) is Err,
    ensures
        accepted(claims, groups) == accepted(claims.subrange(0, n), groups),
    decreases claims.len() - n,
{
    if n < claims.len() {
        assert(claims.subrange(0, n + 1).drop_last() =~= claims.subrange(0, n));
        lemma_refusal_persists(claims, groups, n + 1);
    } else {
        assert(claims.subrange(0, n) =~= claims);
    }
}

fn copy_revision(r: &RevisionOutput) -> (o: RevisionOutput)
    ensures
        o == *r,
{
    RevisionOutput {
        revision: r.revision,
        completeness: r.completeness.clone(),
        checkpoint_id: r.checkpoint_id.clone(),
        source_channel: r.source_channel.clone(),
        created_at: r.created_at,
    }
}

fn copy_revisions(v: &Vec<RevisionOutput>) -> (o: Vec<RevisionOutput>)
    ensures
        o@ == v@,
{
    let mut out: Vec<RevisionOutput> = Vec::new();
    let mut i: usize = 0;
    while i < v.len()
        invariant
            i <= v.len(),
            out@ == v@.subrange(0, i as int),
        decreases v.len() - i,
    {
        out.push(copy_revision(&v[i]));
        i += 1;
        assert(out@ =~= v@.subrange(0, i as int));
    }
    assert(v@.subrange(0, v.len() as int) =~= v@);
    out
}

fn find_group(groups: &Vec<RevisionGroup>, key: &str, ver: i64) -> (r: Option<usize>)
    requires
        unique_groups(groups@),
    ensures
        match r {
            Some(i) => group_for(groups@, key@, ver) == Some(i as int),
            None => group_for(groups@, key@, ver) is None,
        },
{
    let mut i: usize = 0;
    while i < groups.len()
        invariant
            i <= groups.len(),
            unique_groups(groups@),
            forall|j: int| 0 <= j < i ==> !group_is(#[trigger] groups@[j], key@, ver),
        decreases groups.len() - i,
    {
        if groups[i].coverage_schema_version == ver && str_eq(
            groups[i].logical_turn_key.as_str(),
            key,
        ) {
            assert(group_is(groups@[i as int], key@, ver));
            let ghost w = choose|w: int| 0 <= w < groups@.len() && group_is(#[trigger] groups@[w], key@, ver);
            assert(w == i) by {
                if w != i {
                    assert(!group_is(
                        groups@[w],
                        groups@[i as int].logical_turn_key@,
                        groups@[i as int].coverage_schema_version,
                    ));
                }
            }
            return Some(i);
        }
        i += 1;
    }
    None
}

fn find_revision(history: &Vec<RevisionOutput>, rev: i64) -> (r: Option<usize>)
    ensures
        match r {
            Some(i) => first_revision(history@, rev) == Some(i as int) && i < history@.len(),
            None => first_revision(history@, rev) is None,
        },
{
    let mut i: usize = 0;
    assert(history@.subrange(0, history@.len() as int) =~= history@);
    while i < history.len()
        invariant
            i <= history.len(),
            first_revision(history@, rev) == match first_revision(history@.subrange(i as int, history@.len() as int), rev) {
                Some(k) => Some(k + i),
                None => None::<int>,
            },
        decreases history.len() - i,
    {
        let ghost rest = history@.subrange(i as int, history@.len() as int);
        assert(rest[0] == history@[i as int]);
        if history[i].revision == rev {
            return Some(i);
        }
        assert(rest.drop_first() =~= history@.subrange(i + 1, history@.len() as int));
        i += 1;
    }
    None
}

fn is_committed_state(state: &str) -> (r: bool)
    ensures
        r == committed_state(state@),
{
    let v = chars_of(state);
    word_is(&v, "catalog_committed") || word_is(&v, "conflicted")
}

/// The committed turns of the coverage claims, in claim order, each checked
/// against its revision history (grouped by turn key and coverage version):
/// the current revision must exist, carry the claim's checkpoint and, for a
/// committed or conflicted claim, its completeness and source channel.
pub fn assemble_indexed_turns(claims: &Vec<ClaimRow>, groups: &Vec<RevisionGroup>) -> (r: Result<
    Vec<TurnOutput>,
    CaptureGraphError,
>)
    requires
        unique_groups(groups@),
    ensures
        accepted(claims@, groups@) is Ok <==> r is Ok,
        r matches Ok(turns) ==> {
            let pairs = accepted(claims@, groups@)->Ok_0;
            &&& turns@.len() == pairs.len()
            &&& forall|k: int|
                0 <= k < turns@.len() ==> indexed_turn(
                    #[trigger] turns@[k],
                    claims@[pairs[k].0],
                    groups@[pairs[k].1],
                    k,
                )
        },
        r matches Err(e) ==> e.message@ == "failed to "@ + accepted(claims@, groups@)->Err_0
            && e.hint@ == store_hint(),
{
    let mut turns: Vec<TurnOutput> = Vec::new();
    let mut used: Vec<bool> = Vec::new();
    let mut u: usize = 0;
    while u < groups.len()
        invariant
            u <= groups.len(),
            used@.len() == u,
            forall|j: int| 0 <= j < u ==> !(#[trigger] used@[j]),
        decreases groups.len() - u,
    {
        used.push(false);
        u += 1;
    }
    let ghost mut pairs: Seq<(int, int)> = Seq::empty();
    assert(claims@.subrange(0, 0) =~= Seq::<ClaimRow>::empty());
    let mut i: usize = 0;
    while i < claims.len()
        invariant
            i <= claims.len(),
            unique_groups(groups@),
            used@.len() == groups@.len(),
            accepted(claims@.subrange(0, i as int), groups@) == Ok::<Seq<(int, int)>, Seq<char>>(pairs),
            forall|g: int| 0 <= g < used@.len() ==> (#[trigger] used@[g] <==> group_used(pairs, g)),
            turns@.len() == pairs.len(),
            forall|k: int| 0 <= k < pairs.len() ==> 0 <= (#[trigger] pairs[k]).0 < i && 0 <= pairs[k].1 < groups@.len(),
            forall|k: int|
                0 <= k < turns@.len() ==> indexed_turn(
                    #[trigger] turns@[k],
                    claims@[pairs[k].0],
                    groups@[pairs[k].1],
                    k,
                ),
        decreases claims.len() - i,
    {
        let ghost pre = claims@.subrange(0, i as int);
        let ghost cur_seq = claims@.subrange(0, i + 1);
        assert(cur_seq.drop_last() =~= pre);
        assert(cur_seq[i as int] == claims@[i as int]);
        let claim = &claims[i];
        let found = find_group(groups, claim.logical_turn_key.as_str(), claim.coverage_schema_version);
        match found {
            None => {},
            Some(g) => {
                if !used[g] {
                    let history = &groups[g].revisions;
                    match find_revision(history, claim.revision) {
                        None => {
                            proof {
                                assert(!group_used(pairs, g as int));
                                assert(accepted(cur_seq, groups@) == Err::<Seq<(int, int)>, Seq<char>>(
                                    "validate the current turn against revision history"@,
                                ));
                                lemma_refusal_persists(claims@, groups@, i + 1);
                            }
                            return Err(
                                graph_store_error(
                                    "validate the current turn against revision history",
                                ),
                            );
                        },
                        Some(ri) => {
                            let current = &history[ri];
                            if !str_eq(current.checkpoint_id.as_str(), claim.checkpoint_id.as_str()) {
                                proof {
                                    assert(!group_used(pairs, g as int));
                                    assert(accepted(cur_seq, groups@) == Err::<Seq<(int, int)>, Seq<char>>(
                                        "validate the current turn checkpoint against its revision"@,
                                    ));
                                    lemma_refusal_persists(claims@, groups@, i + 1);
                                }
                                return Err(
                                    graph_store_error(
                                        "validate the current turn checkpoint against its revision",
                                    ),
                                );
                            }
                            if is_committed_state(claim.state.as_str()) && (!str_eq(
                                current.completeness.as_str(),
                                claim.completeness.as_str(),
                            ) || !str_eq(
                                current.source_channel.as_str(),
                                claim.source_channel.as_str(),
                            )) {
                                proof {
                                    assert(!group_used(pairs, g as int));
                                    assert(accepted(cur_seq, groups@) == Err::<Seq<(int, int)>, Seq<char>>(
                                        "validate current turn metadata against its revision"@,
                                    ));
                                    lemma_refusal_persists(claims@, groups@, i + 1);
                                }
                                return Err(
                                    graph_store_error(
                                        "validate current turn metadata against its revision",
                                    ),
                                );
                            }
                            let ordinal = turns.len();
                            let turn = TurnOutput {
                                logical_turn_key: claim.logical_turn_key.clone(),
                                ordinal,
                                coverage_schema_version: Some(claim.coverage_schema_version),
                                coverage_state: String::from_str("indexed"),
                                completeness: Some(current.completeness.clone()),
                                current_revision: Some(claim.revision),
                                checkpoint_id: Some(claim.checkpoint_id.clone()),
                                source_channel: Some(current.source_channel.clone()),
                                revisions: copy_revisions(history),
                            };
                            turns.push(turn);
                            used.set(g, true);
                            proof {
                                let old_pairs = pairs;
                                pairs = pairs.push((i as int, g as int));
                                assert(pairs[pairs.len() - 1] == (i as int, g as int));
                                assert forall|h: int| 0 <= h < used@.len() implies (#[trigger] used@[h]
                                    <==> group_used(pairs, h)) by {
                                    if h == g {
                                        assert(pairs[pairs.len() - 1].1 == h);
                                    } else {
                                        if group_used(pairs, h) {
                                            let k = choose|k: int| 0 <= k < pairs.len() && (#[trigger] pairs[k]).1 == h;
                                            assert(k < old_pairs.len());
                                            assert(old_pairs[k].1 == h);
                                        }
                                        if group_used(old_pairs, h) {
                                            let k = choose|k: int| 0 <= k < old_pairs.len() && (#[trigger] old_pairs[k]).1 == h;
                                            assert(pairs[k].1 == h);
                                        }
                                    }
                                }
                                assert forall|k: int| 0 <= k < turns@.len() implies indexed_turn(
                                    #[trigger] turns@[k],
                                    claims@[pairs[k].0],
                                    groups@[pairs[k].1],
                                    k,
                                ) by {
                                    if k < old_pairs.len() {
                                        assert(pairs[k] == old_pairs[k]);
                                    }
                                }
                            }
                        },
                    }
                }
            },
        }
        i += 1;
    }
    assert(claims@.subrange(0, claims.len() as int) =~= claims@);
    Ok(turns)
}

/// One row of a turn's revision history, with the turn it belongs to.
#[derive(Debug, Clone)]
pub struct RevisionRow {
    pub logical_turn_key: String,
    pub coverage_schema_version: i64,
    pub revision: RevisionOutput,
}

/// The revisions of the rows of `key` at `ver`, in row order.
pub open spec fn revisions_of(rows: Seq<RevisionRow>, key: Seq<char>, ver: i64) -> Seq<RevisionOutput>
    decreases rows.len(),
{
    if rows.len() == 0 {
        Seq::empty()
    } else {
        let rest = revisions_of(rows.drop_last(), key, ver);
        if rows.last().logical_turn_key@ == key && rows.last().coverage_schema_version == ver {
            rest.push(rows.last().revision)
        } else {
            rest
        }
    }
}

fn collect_revisions(rows: &Vec<RevisionRow>, key: &str, ver: i64) -> (r: Vec<RevisionOutput>)
    ensures
        r@ == revisions_of(rows@, key@, ver),
{
    let mut out: Vec<RevisionOutput> = Vec::new();
    let mut j: usize = 0;
    while j < rows.len()
        invariant
            j <= rows.len(),
            out@ == revisions_of(rows@.subrange(0, j as int), key@, ver),
        decreases rows.len() - j,
    {
        assert(rows@.subrange(0, j + 1).drop_last() =~= rows@.subrange(0, j as int));
        if rows[j].coverage_schema_version == ver && str_eq(rows[j].logical_turn_key.as_str(), key) {
            out.push(copy_revision(&rows[j].revision));
        }
        j += 1;
    }
    assert(rows@.subrange(0, rows.len() as int) =~= rows@);
    out
}

/// The revision history of each turn key and coverage version, with the
/// rows of each in their order: one group per key that some row carries.
pub fn group_revisions(rows: &Vec<RevisionRow>) -> (r: Vec<RevisionGroup>)
    ensures
        unique_groups(r@),
        forall|g: int|
            0 <= g < r@.len() ==> (#[trigger] r@[g]).revisions@ == revisions_of(
                rows@,
                r@[g].logical_turn_key@,
                r@[g].coverage_schema_version,
            ),
        forall|k: int|
            0 <= k < rows@.len() ==> group_for(
                r@,
                (#[trigger] rows@[k]).logical_turn_key@,
                rows@[k].coverage_schema_version,
            ) is Some,
{
    let mut groups: Vec<RevisionGroup> = Vec::new();
    let mut i: usize = 0;
    while i < rows.len()
        invariant
            i <= rows.len(),
            unique_groups(groups@),
            forall|g: int|
                0 <= g < groups@.len() ==> (#[trigger] groups@[g]).revisions@ == revisions_of(
                    rows@,
                    groups@[g].logical_turn_key@,
                    groups@[g].coverage_schema_version,
                ),
            forall|k: int|
                0 <= k < i ==> exists|g: int|
                    0 <= g < groups@.len() && group_is(
                        #[trigger] groups@[g],
                        (#[trigger] rows@[k]).logical_turn_key@,
                        rows@[k].coverage_schema_version,
                    ),
        decreases rows.len() - i,
    {
        let key = rows[i].logical_turn_key.as_str();
        let ver = rows[i].coverage_schema_version;
        let found = find_group(&groups, key, ver);
        if found.is_none() {
            let revisions = collect_revisions(rows, key, ver);
            let ghost before = groups@;
            groups.push(
                RevisionGroup {
                    logical_turn_key: rows[i].logical_turn_key.clone(),
                    coverage_schema_version: ver,
                    revisions,
                },
            );
            proof {
                let n = before.len() as int;
                assert(group_is(groups@[n], key@, ver));
                assert forall|a: int, b: int|
                    #![trigger groups@[a], groups@[b]]
                    0 <= a < groups@.len() && 0 <= b < groups@.len() && a != b implies !group_is(
                    groups@[a],
                    groups@[b].logical_turn_key@,
                    groups@[b].coverage_schema_version,
                ) by {
                    if a == n {
                        assert(groups@[b] == before[b]);
                    } else if b == n {
                        assert(groups@[a] == before[a]);
                    } else {
                        assert(groups@[a] == before[a] && groups@[b] == before[b]);
                    }
                }
                assert forall|k: int| 0 <= k < i + 1 implies exists|g: int|
                    0 <= g < groups@.len() && group_is(
                        #[trigger] groups@[g],
                        (#[trigger] rows@[k]).logical_turn_key@,
                        rows@[k].coverage_schema_version,
                    ) by {
                    if k == i {
                        assert(group_is(groups@[n], rows@[k].logical_turn_key@, rows@[k].coverage_schema_version));
                    } else {
                        let g = choose|g: int| 0 <= g < before.len() && group_is(
                            #[trigger] before[g],
                            rows@[k].logical_turn_key@,
                            rows@[k].coverage_schema_version,
                        );
                        assert(groups@[g] == before[g]);
                    }
                }
            }
        } else {
            proof {
                let g = group_for(groups@, key@, ver)->Some_0;
                assert(group_is(groups@[g], rows@[i as int].logical_turn_key@, rows@[i as int].coverage_schema_version));
            }
        }
        i += 1;
    }
    proof {
        assert forall|k: int| 0 <= k < rows@.len() implies group_for(
            groups@,
            (#[trigger] rows@[k]).logical_turn_key@,
            rows@[k].coverage_schema_version,
        ) is Some by {
            let g = choose|g: int| 0 <= g < groups@.len() && group_is(
                #[trigger] groups@[g],
                rows@[k].logical_turn_key@,
                rows@[k].coverage_schema_version,
            );
            assert(group_is(groups@[g], rows@[k].logical_turn_key@, rows@[k].coverage_schema_version));
        }
    }
    groups
}

// ---------------------------------------------------------------------------
// Containment checks
// ---------------------------------------------------------------------------

/// A checkpoint of the captured session and when it was created.
#[derive(Debug, Clone)]
pub struct CheckpointStructure {
    pub checkpoint_id: String,
    pub created_at: i64,
}

/// Whether `id` names one of the session's checkpoints.
pub open spec fn known_checkpoint(checkpoints: Seq<CheckpointStructure>, id: Seq<char>) -> bool {
    exists|j: int| 0 <= j < checkpoints.len() && (#[trigger] checkpoints[j]).checkpoint_id@ == id
}

fn is_known_checkpoint(checkpoints: &Vec<CheckpointStructure>, id: &str) -> (r: bool)
    ensures
        r == known_checkpoint(checkpoints@, id@),
{
    let mut j: usize = 0;
    while j < checkpoints.len()
        invariant
            j <= checkpoints.len(),
            forall|k: int| 0 <= k < j ==> (#[trigger] checkpoints@[k]).checkpoint_id@ != id@,
        decreases checkpoints.len() - j,
    {
        if str_eq(checkpoints[j].checkpoint_id.as_str(), id) {
            return true;
        }
        j += 1;
    }
    false
}

/// Whether a turn and all its revisions stay inside the session.
pub open spec fn turn_contained(t: TurnOutput, checkpoints: Seq<CheckpointStructure>) -> bool {
    &&& (t.checkpoint_id matches Some(c) ==> known_checkpoint(checkpoints, c@))
    &&& forall|r: int|
        0 <= r < t.revisions@.len() ==> known_checkpoint(
            checkpoints,
            (#[trigger] t.revisions@[r]).checkpoint_id@,
        )
}

fn turn_is_contained(t: &TurnOutput, checkpoints: &Vec<CheckpointStructure>) -> (r: bool)
    ensures
        r == turn_contained(*t, checkpoints@),
{
    if let Some(c) = &t.checkpoint_id {
        if !is_known_checkpoint(checkpoints, c.as_str()) {
            return false;
        }
    }
    let mut k: usize = 0;
    while k < t.revisions.len()
        invariant
            k <= t.revisions.len(),
            forall|r: int| 0 <= r < k ==> known_checkpoint(
                checkpoints@,
                (#[trigger] t.revisions@[r]).checkpoint_id@,
            ),
        decreases t.revisions.len() - k,
    {
        if !is_known_checkpoint(checkpoints, t.revisions[k].checkpoint_id.as_str()) {
            return false;
        }
        k += 1;
    }
    true
}

/// Every turn's checkpoint and every revision's checkpoint must belong to
/// the captured session.
pub fn validate_turn_checkpoints(turns: &Vec<TurnOutput>, checkpoints: &Vec<CheckpointStructure>) -> (r:
    Result<(), CaptureGraphError>)
    ensures
        r is Ok <==> forall|k: int| 0 <= k < turns@.len() ==> turn_contained(#[trigger] turns@[k], checkpoints@),
        r matches Err(e) ==> e.message@ == "failed to "@ + "validate turn checkpoints within the captured session"@,
{
    let mut k: usize = 0;
    while k < turns.len()
        invariant
            k <= turns.len(),
            forall|j: int| 0 <= j < k ==> turn_contained(#[trigger] turns@[j], checkpoints@),
        decreases turns.len() - k,
    {
        if !turn_is_contained(&turns[k], checkpoints) {
            return Err(graph_store_error("validate turn checkpoints within the captured session"));
        }
        k += 1;
    }
    Ok(())
}

/// One captured subagent under the session.
#[derive(Debug, Clone)]
pub struct SubagentNodeOutput {
    pub checkpoint_id: String,
    pub link_state: String,
    pub boundary_checkpoint_id: Option<String>,
    pub created_at: i64,
}

/// Whether a subagent link is well formed and stays inside the session.
pub open spec fn link_contained(n: SubagentNodeOutput, checkpoints: Seq<CheckpointStructure>) -> bool {
    &&& (n.link_state@ == "resolved"@ || n.link_state@ == "unresolved"@)
    &&& known_checkpoint(checkpoints, n.checkpoint_id@)
    &&& (n.boundary_checkpoint_id matches Some(b) ==> known_checkpoint(checkpoints, b@))
}

/// Every subagent link must be resolved or unresolved and name checkpoints
/// of the captured session.
pub fn validate_subagent_links(nodes: &Vec<SubagentNodeOutput>, checkpoints: &Vec<CheckpointStructure>) -> (r:
    Result<(), CaptureGraphError>)
    ensures
        r is Ok <==> forall|k: int| 0 <= k < nodes@.len() ==> link_contained(#[trigger] nodes@[k], checkpoints@),
        r matches Err(e) ==> e.message@ == "failed to "@ + "validate subagent links within the captured session"@,
{
    let mut k: usize = 0;
    while k < nodes.len()
        invariant
            k <= nodes.len(),
            forall|j: int| 0 <= j < k ==> link_contained(#[trigger] nodes@[j], checkpoints@),
        decreases nodes.len() - k,
    {
        let n = &nodes[k];
        let v = chars_of(n.link_state.as_str());
        let state_ok = word_is(&v, "resolved") || word_is(&v, "unresolved");
        let boundary_ok = match &n.boundary_checkpoint_id {
            Some(b) => is_known_checkpoint(checkpoints, b.as_str()),
            None => true,
        };
        if !state_ok || !is_known_checkpoint(checkpoints, n.checkpoint_id.as_str()) || !boundary_ok {
            return Err(graph_store_error("validate subagent links within the captured session"));
        }
        k += 1;
    }
    Ok(())
}

} // verus!
