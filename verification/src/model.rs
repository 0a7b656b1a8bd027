//! Scenarios: trees of blocks with their settings, and the log of a run.
use vstd::prelude::*;

use crate::text::opt_text;
use crate::value::{Json, JsonView};

verus! {

/// What a run does when a block fails.
#[derive(Debug, Clone, Copy, PartialEq, Eq, Structural)]
pub enum OnError {
    Stop,
    Skip,
    Retry,
}

impl Default for OnError {
    fn default() -> (r: OnError)
        ensures
            r == OnError::Stop,
    {
        OnError::Stop
    }
}

/// Limits on a run, against loops without end and long runs.
#[derive(Debug, Clone, Copy, PartialEq, Eq, Structural)]
pub struct RunCaps {
    pub max_steps: u32,
    pub max_loop_iterations: u32,
    pub max_total_secs: u64,
    /// Tokens that the AI blocks of one run may use up.
    pub max_ai_tokens: u64,
}

impl Default for RunCaps {
    fn default() -> (r: RunCaps)
        ensures
            r.max_steps == 2000,
            r.max_loop_iterations == 1000,
            r.max_total_secs == 3600,
            r.max_ai_tokens == 200000,
    {
        RunCaps {
            max_steps: 2000,
            max_loop_iterations: 1000,
            max_total_secs: 3600,
            max_ai_tokens: 200000,
        }
    }
}

/// Whether AI blocks ask a provider: always, never, or as each block says.
#[derive(Debug, Clone, Copy, PartialEq, Eq, Structural)]
pub enum AiMode {
    Ai,
    NoAi,
    Auto,
}

impl Default for AiMode {
    fn default() -> (r: AiMode)
        ensures
            r == AiMode::Auto,
    {
        AiMode::Auto
    }
}

/// How a scenario takes a row from its dataset.
#[derive(Debug, Clone, Copy, PartialEq, Eq, Structural)]
pub enum DataMode {
    Random,
    Sequential,
}

/// The dataset that seeds the variables of a scenario.
#[derive(Debug, PartialEq, Eq)]
pub struct DataBinding {
    pub dataset_id: String,
    pub mode: DataMode,
    /// The variable that holds the row; without one, each column is a
    /// variable of its own.
    pub prefix: Option<String>,
}

impl DataBinding {
    pub fn copy(&self) -> (r: DataBinding)
        ensures
            r.dataset_id@ == self.dataset_id@,
            r.mode == self.mode,
            opt_text(r.prefix) == opt_text(self.prefix),
    {
        DataBinding {
            dataset_id: self.dataset_id.clone(),
            mode: self.mode,
            prefix: copy_opt(&self.prefix),
        }
    }
}

/// A copy of an optional string.
pub fn copy_opt(o: &Option<String>) -> (r: Option<String>)
    ensures
        opt_text(r) == opt_text(*o),
{
    match o {
        Some(s) => Some(s.clone()),
        None => None,
    }
}

/// A block of a scenario. `children` holds the body of a loop, or the blocks
/// that run where a condition holds; `branch_else` those that run where it
/// does not.
#[derive(Debug, PartialEq, Eq)]
pub struct Block {
    pub id: String,
    pub block_type: String,
    pub label: Option<String>,
    /// The settings of the block; `{{..}}` in their strings stands for
    /// variables.
    pub params: Json,
    /// Whether an AI block asks a provider where the scenario leaves it open.
    pub ai_enabled: bool,
    pub children: Vec<Block>,
    pub branch_else: Option<Vec<Block>>,
    /// Overrides what the scenario says.
    pub on_error: Option<OnError>,
    /// Goes through the motions without acting on the browser.
    pub dry_run: bool,
    pub disabled: bool,
}

pub struct BlockView {
    pub id: Seq<char>,
    pub block_type: Seq<char>,
    pub label: Option<Seq<char>>,
    pub params: JsonView,
    pub ai_enabled: bool,
    pub children: Seq<BlockView>,
    pub branch_else: Option<Seq<BlockView>>,
    pub on_error: Option<OnError>,
    pub dry_run: bool,
    pub disabled: bool,
}

impl Block {
    pub open spec fn view(&self) -> BlockView
        decreases self,
    {
        BlockView {
            id: self.id@,
            block_type: self.block_type@,
            label: opt_text(self.label),
            params: self.params@,
            ai_enabled: self.ai_enabled,
            children: Seq::new(
                self.children@.len(),
                |i: int|
                    if 0 <= i < self.children@.len() {
                        self.children@[i].view()
                    } else {
                        arbitrary()
                    },
            ),
            branch_else: match self.branch_else {
                Some(b) => Some(
                    Seq::new(
                        b@.len(),
                        |i: int|
                            if 0 <= i < b@.len() {
                                b@[i].view()
                            } else {
                                arbitrary()
                            },
                    ),
                ),
                None => None,
            },
            on_error: self.on_error,
            dry_run: self.dry_run,
            disabled: self.disabled,
        }
    }
}

/// The blocks of a list.
pub open spec fn blocks(v: Seq<Block>) -> Seq<BlockView> {
    v.map_values(|b: Block| b@)
}

pub proof fn lemma_blocks_push(v: Seq<Block>, b: Block)
    ensures
        blocks(v.push(b)) == blocks(v).push(b@),
{
    assert(blocks(v.push(b)) =~= blocks(v).push(b@));
}

pub open spec fn opt_blocks(o: Option<Vec<Block>>) -> Option<Seq<BlockView>> {
    match o {
        Some(v) => Some(blocks(v@)),
        None => None,
    }
}

/// The lists inside a block, by the blocks they hold.
pub proof fn lemma_block_view(b: Block)
    ensures
        b@.children == blocks(b.children@),
        b@.branch_else == opt_blocks(b.branch_else),
{
    assert(b@.children =~= blocks(b.children@));
    if let Some(v) = b.branch_else {
        assert(b@.branch_else->0 =~= blocks(v@));
    }
}

proof fn lemma_child_smaller(b: Block, i: int)
    requires
        0 <= i < b.children@.len(),
    ensures
        decreases_to!(b => b.children@[i]),
{
    let v = b.children;
    assert(decreases_to!(v => v[i]));
}

proof fn lemma_else_smaller(b: Block, i: int)
    requires
        b.branch_else is Some,
        0 <= i < b.branch_else->0@.len(),
    ensures
        decreases_to!(b => b.branch_else->0@[i]),
{
    let v = b.branch_else->0;
    assert(decreases_to!(v => v[i]));
}

impl BlockView {
    /// A block of the given kind and settings, with nothing else set.
    pub open spec fn plain(block_type: Seq<char>, params: JsonView) -> BlockView {
        BlockView {
            id: block_type,
            block_type,
            label: None,
            params,
            ai_enabled: false,
            children: Seq::empty(),
            branch_else: None,
            on_error: None,
            dry_run: false,
            disabled: false,
        }
    }
}

impl Block {
    /// A block of the given kind and settings, with nothing else set.
    pub fn new(block_type: &str, params: Json) -> (r: Block)
        ensures
            r@ == BlockView::plain(block_type@, params@),
    {
        let r = Block {
            id: block_type.to_owned(),
            block_type: block_type.to_owned(),
            label: None,
            params,
            ai_enabled: false,
            children: Vec::new(),
            branch_else: None,
            on_error: None,
            dry_run: false,
            disabled: false,
        };
        assert(r@.children =~= Seq::<BlockView>::empty());
        r
    }

    /// A copy of the block.
    pub fn copy(&self) -> (r: Block)
        ensures
            r@ == self@,
        decreases self,
    {
        let mut children: Vec<Block> = Vec::new();
        let mut i: usize = 0;
        while i < self.children.len()
            invariant
                i <= self.children@.len(),
                blocks(children@) =~= blocks(self.children@).take(i as int),
            decreases self.children@.len() - i,
        {
            proof {
                lemma_child_smaller(*self, i as int);
            }
            let c = self.children[i].copy();
            proof {
                lemma_blocks_push(children@, c);
            }
            children.push(c);
            i = i + 1;
        }
        let branch_else = match &self.branch_else {
            Some(v) => {
                let mut out: Vec<Block> = Vec::new();
                let mut k: usize = 0;
                while k < v.len()
                    invariant
                        k <= v@.len(),
                        self.branch_else == Some(*v),
                        blocks(out@) =~= blocks(v@).take(k as int),
                    decreases v@.len() - k,
                {
                    proof {
                        lemma_else_smaller(*self, k as int);
                    }
                    let c = v[k].copy();
                    proof {
                        lemma_blocks_push(out@, c);
                    }
                    out.push(c);
                    k = k + 1;
                }
                assert(blocks(out@) =~= blocks(v@));
                Some(out)
            },
            None => None,
        };
        let r = Block {
            id: self.id.clone(),
            block_type: self.block_type.clone(),
            label: copy_opt(&self.label),
            params: self.params.copy(),
            ai_enabled: self.ai_enabled,
            children,
            branch_else,
            on_error: self.on_error,
            dry_run: self.dry_run,
            disabled: self.disabled,
        };
        proof {
            lemma_block_view(r);
            lemma_block_view(*self);
            assert(blocks(r.children@) =~= blocks(self.children@));
        }
        r
    }
}

/// A copy of a list of blocks.
pub fn copy_blocks(v: &Vec<Block>) -> (r: Vec<Block>)
    ensures
        blocks(r@) == blocks(v@),
{
    let mut out: Vec<Block> = Vec::new();
    let mut k: usize = 0;
    while k < v.len()
        invariant
            k <= v@.len(),
            blocks(out@) =~= blocks(v@).take(k as int),
        decreases v@.len() - k,
    {
        let c = v[k].copy();
        proof {
            lemma_blocks_push(out@, c);
        }
        out.push(c);
        k = k + 1;
    }
    assert(blocks(out@) =~= blocks(v@));
    out
}

/// A scenario.
#[derive(Debug, PartialEq, Eq)]
pub struct Scenario {
    pub id: String,
    pub name: String,
    pub description: Option<String>,
    pub ai_mode: AiMode,
    pub on_error: OnError,
    pub blocks: Vec<Block>,
    pub caps: RunCaps,
    /// The dataset whose rows seed the variables of a run.
    pub data_source: Option<DataBinding>,
}

pub struct BindingView {
    pub dataset_id: Seq<char>,
    pub mode: DataMode,
    pub prefix: Option<Seq<char>>,
}

pub struct ScenarioView {
    pub id: Seq<char>,
    pub name: Seq<char>,
    pub description: Option<Seq<char>>,
    pub ai_mode: AiMode,
    pub on_error: OnError,
    pub blocks: Seq<BlockView>,
    pub caps: RunCaps,
    pub data_source: Option<BindingView>,
}

impl DataBinding {
    pub open spec fn view(&self) -> BindingView {
        BindingView {
            dataset_id: self.dataset_id@,
            mode: self.mode,
            prefix: opt_text(self.prefix),
        }
    }
}

impl Scenario {
    pub open spec fn view(&self) -> ScenarioView {
        ScenarioView {
            id: self.id@,
            name: self.name@,
            description: opt_text(self.description),
            ai_mode: self.ai_mode,
            on_error: self.on_error,
            blocks: blocks(self.blocks@),
            caps: self.caps,
            data_source: match self.data_source {
                Some(b) => Some(b@),
                None => None,
            },
        }
    }

    /// A copy of the scenario.
    pub fn copy(&self) -> (r: Scenario)
        ensures
            r@ == self@,
    {
        Scenario {
            id: self.id.clone(),
            name: self.name.clone(),
            description: copy_opt(&self.description),
            ai_mode: self.ai_mode,
            on_error: self.on_error,
            blocks: copy_blocks(&self.blocks),
            caps: self.caps,
            data_source: match &self.data_source {
                Some(b) => Some(b.copy()),
                None => None,
            },
        }
    }
}

/// The log of one executed block.
#[derive(Debug, PartialEq, Eq)]
pub struct StepLog {
    pub block_id: String,
    pub block_type: String,
    /// "ok", "skipped", "failed", "retried" or "dry_run".
    pub status: String,
    pub duration_ms: u128,
    pub error: Option<String>,
}

pub struct StepView {
    pub block_id: Seq<char>,
    pub block_type: Seq<char>,
    pub status: Seq<char>,
    pub duration_ms: u128,
    pub error: Option<Seq<char>>,
}

impl StepLog {
    pub open spec fn view(&self) -> StepView {
        StepView {
            block_id: self.block_id@,
            block_type: self.block_type@,
            status: self.status@,
            duration_ms: self.duration_ms,
            error: opt_text(self.error),
        }
    }

    /// A copy of the entry.
    pub fn copy(&self) -> (r: StepLog)
        ensures
            r@ == self@,
    {
        StepLog {
            block_id: self.block_id.clone(),
            block_type: self.block_type.clone(),
            status: self.status.clone(),
            duration_ms: self.duration_ms,
            error: copy_opt(&self.error),
        }
    }
}

/// The entries of a log.
pub open spec fn steps(v: Seq<StepLog>) -> Seq<StepView> {
    v.map_values(|s: StepLog| s@)
}

pub proof fn lemma_steps_push(v: Seq<StepLog>, s: StepLog)
    ensures
        steps(v.push(s)) == steps(v).push(s@),
{
    assert(steps(v.push(s)) =~= steps(v).push(s@));
}

/// A copy of a log.
pub fn copy_steps(v: &Vec<StepLog>) -> (r: Vec<StepLog>)
    ensures
        steps(r@) == steps(v@),
{
    let mut out: Vec<StepLog> = Vec::new();
    let mut k: usize = 0;
    while k < v.len()
        invariant
            k <= v@.len(),
            steps(out@) =~= steps(v@).take(k as int),
        decreases v@.len() - k,
    {
        let c = v[k].copy();
        proof {
            lemma_steps_push(out@, c);
        }
        out.push(c);
        k = k + 1;
    }
    assert(steps(out@) =~= steps(v@));
    out
}

} // verus!
