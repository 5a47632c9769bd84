//! What the live dashboard shows: the table of functions, ordered by
//! identifier, with each function's state (and the colour it is drawn in),
//! its memory limit and its port, and the summary of the orchestrator.

use vstd::prelude::*;
use vstd::string::StringExecFns;

use crate::cpu_list::chars_of;
use crate::state::{state_name, FunctionState};
use crate::stats::{AetherlessStats, FunctionStatus};
use crate::text::{decimal, decimal_string};

verus! {

/// `a` sorts before `b` as text does: by the first character in which they
/// differ, or, where one is a prefix of the other, the shorter first.
pub open spec fn text_lt(a: Seq<char>, b: Seq<char>) -> bool
    decreases a.len(),
{
    if a.len() == 0 {
        b.len() > 0
    } else if b.len() == 0 {
        false
    } else if a[0] != b[0] {
        a[0] < b[0]
    } else {
        text_lt(a.drop_first(), b.drop_first())
    }
}

/// Text never sorts before itself.
pub proof fn lemma_text_lt_irreflexive(a: Seq<char>)
    ensures
        !text_lt(a, a),
    decreases a.len(),
{
    if a.len() > 0 {
        lemma_text_lt_irreflexive(a.drop_first());
    }
}

/// Of two texts at most one sorts before the other.
pub proof fn lemma_text_lt_asymmetric(a: Seq<char>, b: Seq<char>)
    ensures
        text_lt(a, b) ==> !text_lt(b, a),
    decreases a.len(),
{
    if a.len() > 0 && b.len() > 0 && a[0] == b[0] {
        lemma_text_lt_asymmetric(a.drop_first(), b.drop_first());
    }
}

/// Sorting before is transitive.
pub proof fn lemma_text_lt_transitive(a: Seq<char>, b: Seq<char>, c: Seq<char>)
    requires
        text_lt(a, b),
        text_lt(b, c),
    ensures
        text_lt(a, c),
    decreases a.len(),
{
    if a.len() > 0 && b.len() > 0 && c.len() > 0 && a[0] == b[0] && b[0] == c[0] {
        lemma_text_lt_transitive(a.drop_first(), b.drop_first(), c.drop_first());
    }
}

/// Of two different texts one sorts before the other.
pub proof fn lemma_text_lt_total(a: Seq<char>, b: Seq<char>)
    ensures
        a == b || text_lt(a, b) || text_lt(b, a),
    decreases a.len(),
{
    if a.len() > 0 && b.len() > 0 && a[0] == b[0] {
        lemma_text_lt_total(a.drop_first(), b.drop_first());
        if a.drop_first() == b.drop_first() {
            assert(a =~= seq![a[0]] + a.drop_first());
            assert(b =~= seq![b[0]] + b.drop_first());
        }
    } else if a.len() == 0 && b.len() == 0 {
        assert(a =~= b);
    }
}

/// Whether `a` sorts before `b`.
fn text_less(a: &Vec<char>, b: &Vec<char>) -> (r: bool)
    ensures
        r == text_lt(a@, b@),
{
    let mut i: usize = 0;
    proof {
        assert(a@.skip(0) =~= a@);
        assert(b@.skip(0) =~= b@);
    }
    while i < a.len() && i < b.len()
        invariant
            i <= a@.len(),
            i <= b@.len(),
            text_lt(a@, b@) == text_lt(a@.skip(i as int), b@.skip(i as int)),
        decreases a@.len() - i,
    {
        if a[i] != b[i] {
            return a[i] < b[i];
        }
        proof {
            assert(a@.skip(i as int).drop_first() =~= a@.skip(i + 1));
            assert(b@.skip(i as int).drop_first() =~= b@.skip(i + 1));
        }
        i = i + 1;
    }
    i < b.len()
}

/// The colour a state is drawn in.
#[derive(Debug, Clone, Copy, PartialEq, Eq, Structural)]
pub enum StateColor {
    Green,
    Blue,
    Gray,
    White,
}

/// Running functions are green, warm ones blue, uninitialized ones gray,
/// and suspended ones white.
pub open spec fn state_color_spec(state: FunctionState) -> StateColor {
    match state {
        FunctionState::Running => StateColor::Green,
        FunctionState::WarmSnapshot => StateColor::Blue,
        FunctionState::Uninitialized => StateColor::Gray,
        FunctionState::Suspended => StateColor::White,
    }
}

/// The colour `state` is drawn in.
pub fn state_color(state: FunctionState) -> (r: StateColor)
    ensures
        r == state_color_spec(state),
{
    match state {
        FunctionState::Running => StateColor::Green,
        FunctionState::WarmSnapshot => StateColor::Blue,
        FunctionState::Uninitialized => StateColor::Gray,
        FunctionState::Suspended => StateColor::White,
    }
}

/// One row of the function table.
pub struct FunctionRow {
    /// The function identifier.
    pub id: String,
    /// The name of its state.
    pub state: String,
    /// The colour of the state cell.
    pub color: StateColor,
    /// The memory limit, as `<megabytes> MB`.
    pub memory: String,
    /// The trigger port.
    pub port: String,
}

impl View for FunctionRow {
    type V = (Seq<char>, Seq<char>, StateColor, Seq<char>, Seq<char>);

    open spec fn view(&self) -> Self::V {
        (self.id@, self.state@, self.color, self.memory@, self.port@)
    }
}

/// The row that shows a function's status.
pub open spec fn status_row(f: FunctionStatus) -> (Seq<char>, Seq<char>, StateColor, Seq<char>, Seq<char>) {
    (
        f.id@,
        state_name(f.state),
        state_color_spec(f.state),
        decimal(f.memory_mb as nat) + " MB"@,
        decimal(f.port as nat),
    )
}

/// The rows of the given statuses, one per status, in their order.
pub open spec fn status_rows(fs: Seq<FunctionStatus>) -> Seq<(Seq<char>, Seq<char>, StateColor, Seq<char>, Seq<char>)> {
    fs.map_values(|f: FunctionStatus| status_row(f))
}

/// The views of the rows.
pub open spec fn row_views(rows: Seq<FunctionRow>) -> Seq<(Seq<char>, Seq<char>, StateColor, Seq<char>, Seq<char>)> {
    rows.map_values(|r: FunctionRow| r@)
}

/// The rows are in ascending order of identifier.
pub open spec fn in_id_order(rows: Seq<(Seq<char>, Seq<char>, StateColor, Seq<char>, Seq<char>)>) -> bool {
    forall|i: int, j: int| 0 <= i <= j < rows.len() ==> !text_lt(#[trigger] rows[j].0, #[trigger] rows[i].0)
}

/// The function table: a note while no status has been published, another
/// while no function is configured, else one row per function.
pub enum FunctionTable {
    /// No status has been published yet.
    Waiting,
    /// The orchestrator runs no function.
    NoFunctions,
    /// The rows, ordered by function identifier.
    Rows(Vec<FunctionRow>),
}

/// The row of one function's status.
pub fn function_row(f: &FunctionStatus) -> (r: FunctionRow)
    ensures
        r@ == status_row(*f),
{
    let mut memory = decimal_string(f.memory_mb);
    memory.append(" MB");
    FunctionRow {
        id: f.id.as_str().to_string(),
        state: f.state.name().to_string(),
        color: state_color(f.state),
        memory,
        port: decimal_string(f.port as u64),
    }
}

proof fn lemma_insert_keeps_order(
    keys: Seq<Seq<char>>,
    key: Seq<char>,
    pos: int,
)
    requires
        0 <= pos <= keys.len(),
        forall|i: int, j: int| 0 <= i <= j < keys.len() ==> !text_lt(#[trigger] keys[j], #[trigger] keys[i]),
        forall|i: int| 0 <= i < pos ==> !text_lt(key, #[trigger] keys[i]),
        pos < keys.len() ==> text_lt(key, keys[pos]),
    ensures
        forall|i: int, j: int|
            0 <= i <= j < keys.len() + 1 ==> !text_lt(
                #[trigger] keys.insert(pos, key)[j],
                #[trigger] keys.insert(pos, key)[i],
            ),
{
    let n = keys.insert(pos, key);
    assert forall|i: int| pos <= i < keys.len() implies text_lt(key, #[trigger] keys[i]) by {
        lemma_text_lt_total(key, keys[i]);
        if key == keys[i] {
            assert(!text_lt(keys[i], keys[pos]));
        } else if text_lt(keys[i], key) {
            lemma_text_lt_transitive(keys[i], key, keys[pos]);
        }
    }
    assert forall|i: int, j: int| 0 <= i <= j < n.len() implies !text_lt(#[trigger] n[j], #[trigger] n[i]) by {
        if i == j {
            lemma_text_lt_irreflexive(n[i]);
        } else if j < pos {
            assert(n[i] == keys[i] && n[j] == keys[j]);
        } else if j == pos {
            assert(n[i] == keys[i]);
        } else if i == pos {
            assert(n[j] == keys[j - 1]);
            lemma_text_lt_asymmetric(key, keys[j - 1]);
        } else if i < pos {
            assert(n[i] == keys[i] && n[j] == keys[j - 1]);
        } else {
            assert(n[i] == keys[i - 1] && n[j] == keys[j - 1]);
        }
    }
}

/// The statuses' rows, ordered by identifier: the same rows, each as often,
/// in ascending order of identifier.
pub fn rows_by_id(fs: &Vec<FunctionStatus>) -> (r: Vec<FunctionRow>)
    ensures
        row_views(r@).to_multiset() == status_rows(fs@).to_multiset(),
        in_id_order(row_views(r@)),
{
    let mut out: Vec<FunctionRow> = Vec::new();
    let mut keys: Vec<Vec<char>> = Vec::new();
    let n = fs.len();
    let mut k: usize = 0;
    proof {
        assert(row_views(out@) =~= status_rows(fs@.take(0)));
    }
    while k < n
        invariant
            k <= n,
            n == fs@.len(),
            keys@.len() == out@.len(),
            forall|i: int| 0 <= i < keys@.len() ==> (#[trigger] keys@[i])@ == out@[i].id@,
            row_views(out@).to_multiset() == status_rows(fs@.take(k as int)).to_multiset(),
            in_id_order(row_views(out@)),
        decreases n - k,
    {
        let row = function_row(&fs[k]);
        let key = chars_of(row.id.as_str());
        let ghost kv = keys@.map_values(|v: Vec<char>| v@);
        proof {
            assert forall|i: int, j: int| 0 <= i <= j < kv.len() implies !text_lt(#[trigger] kv[j], #[trigger] kv[i]) by {
                assert(kv[i] == row_views(out@)[i].0);
                assert(kv[j] == row_views(out@)[j].0);
            }
        }
        let mut pos: usize = 0;
        while pos < keys.len() && !text_less(&key, &keys[pos])
            invariant
                pos <= keys@.len(),
                forall|i: int| 0 <= i < pos ==> !text_lt(key@, (#[trigger] keys@[i])@),
            decreases keys@.len() - pos,
        {
            pos = pos + 1;
        }
        let ghost old_out = out@;
        let ghost old_keys = keys@;
        proof {
            assert forall|i: int| 0 <= i < pos implies !text_lt(key@, #[trigger] kv[i]) by {
                assert(kv[i] == keys@[i]@);
            }
            lemma_insert_keeps_order(kv, key@, pos as int);
        }
        out.insert(pos, row);
        keys.insert(pos, key);
        proof {
            let fk = fs@[k as int];
            assert(fs@.take(k + 1) =~= fs@.take(k as int).push(fk));
            assert(status_rows(fs@.take(k + 1)) =~= status_rows(fs@.take(k as int)).push(status_row(fk)));
            let sr = status_row(fk);
            assert(row_views(out@) =~= row_views(old_out).insert(pos as int, sr));
            vstd::seq_lib::to_multiset_insert(row_views(old_out), pos as int, sr);
            vstd::seq_lib::to_multiset_build(status_rows(fs@.take(k as int)), sr);
            assert forall|i: int| 0 <= i < keys@.len() implies (#[trigger] keys@[i])@ == out@[i].id@ by {
                if i < pos {
                    assert(keys@[i] == old_keys[i]);
                    assert(out@[i] == old_out[i]);
                } else if i > pos {
                    assert(keys@[i] == old_keys[i - 1]);
                    assert(out@[i] == old_out[i - 1]);
                }
            }
            let nk = kv.insert(pos as int, key@);
            assert forall|i: int, j: int| 0 <= i <= j < out@.len() implies !text_lt(
                #[trigger] row_views(out@)[j].0,
                #[trigger] row_views(out@)[i].0,
            ) by {
                assert(row_views(out@)[i].0 == nk[i]);
                assert(row_views(out@)[j].0 == nk[j]);
            }
        }
        k = k + 1;
    }
    proof {
        assert(fs@.take(n as int) =~= fs@);
    }
    out
}

/// The function table of the latest published status, if any.
pub fn function_table(stats: Option<&AetherlessStats>) -> (r: FunctionTable)
    ensures
        stats is None ==> r is Waiting,
        stats matches Some(s) ==> (s.functions@.len() == 0 ==> r is NoFunctions),
        stats matches Some(s) ==> (s.functions@.len() > 0 ==> (r matches FunctionTable::Rows(rows) && {
            &&& row_views(rows@).to_multiset() == status_rows(s.functions@).to_multiset()
            &&& in_id_order(row_views(rows@))
        })),
{
    match stats {
        None => FunctionTable::Waiting,
        Some(s) => {
            if s.functions.len() == 0 {
                FunctionTable::NoFunctions
            } else {
                FunctionTable::Rows(rows_by_id(&s.functions))
            }
        },
    }
}

/// The orchestrator summary: running instances and whether the warm pool
/// is active; none and no while no status has been published.
pub fn system_summary(stats: Option<&AetherlessStats>) -> (r: (usize, bool))
    ensures
        r == (match stats {
            Some(s) => (s.active_instances, s.warm_pool_active),
            None => (0usize, false),
        }),
{
    match stats {
        Some(s) => (s.active_instances, s.warm_pool_active),
        None => (0, false),
    }
}

/// Texts sort by character code, lexicographically: at the first position
/// where they differ, the text with the smaller character sorts first.
pub proof fn law_text_order_first_difference(a: Seq<char>, b: Seq<char>, i: int)
    requires
        0 <= i < a.len(),
        i < b.len(),
        forall|j: int| 0 <= j < i ==> a[j] == b[j],
        a[i] != b[i],
    ensures
        text_lt(a, b) <==> (a[i] as int) < (b[i] as int),
    decreases i,
{
    if i > 0 {
        assert forall|j: int| 0 <= j < i - 1 implies a.drop_first()[j] == b.drop_first()[j] by {
            assert(a[j + 1] == b[j + 1]);
        }
        law_text_order_first_difference(a.drop_first(), b.drop_first(), i - 1);
        assert(a[0] == b[0]);
    }
}

/// A proper prefix sorts before the longer text, and a text never sorts
/// before one of its prefixes.
pub proof fn law_text_order_prefix(a: Seq<char>, b: Seq<char>)
    requires
        a.len() <= b.len(),
        forall|j: int| 0 <= j < a.len() ==> a[j] == b[j],
    ensures
        text_lt(a, b) <==> a.len() < b.len(),
        !text_lt(b, a),
    decreases a.len(),
{
    if a.len() > 0 {
        assert forall|j: int| 0 <= j < a.drop_first().len() implies a.drop_first()[j] == b.drop_first()[j] by {
            assert(a[j + 1] == b[j + 1]);
        }
        law_text_order_prefix(a.drop_first(), b.drop_first());
        assert(a[0] == b[0]);
    }
}

/// Each state has its own colour: running green, warm blue, uninitialized
/// gray, suspended white.
pub proof fn law_state_colors()
    ensures
        state_color_spec(FunctionState::Running) == StateColor::Green,
        state_color_spec(FunctionState::WarmSnapshot) == StateColor::Blue,
        state_color_spec(FunctionState::Uninitialized) == StateColor::Gray,
        state_color_spec(FunctionState::Suspended) == StateColor::White,
{
}

} // verus!
