//! Engine of a pattern-matching syntax for conditional compilation.
//!
//! Users supply a set of arms, each pairing a boolean predicate over
//! build/target attributes with a chunk of source code.  The engine
//! tokenizes the arms, builds and evaluates boolean predicate trees,
//! and renders cumulative, mutually exclusive directives across arms.
use vstd::prelude::*;

use crate::arm::ArmView;
use crate::arm::CfgBoostMacroSource;
use crate::arm::TargetArm;
use crate::arm::TargetArmModifier;
use crate::arm::TargetArmType;
use crate::arm::spec_arms;
use crate::arm::spec_any_panic;
use crate::arm::spec_extract_arms;
use crate::arm::spec_panic_dump;
use crate::arm::spec_legacy_pred;
use crate::arm::spec_target_directives;
use crate::arm::spec_verify_arms;
use crate::config::CfgContext;
use crate::errors::CfgBoostError;
use crate::errors::ErrorView;
use crate::modifiers::TargetActiveComparisonOperator;
use crate::modifiers::TargetActiveCounter;
use crate::modifiers::TargetBranchType;
use crate::syntax::NodeView;
use crate::syntax::SyntaxTreeNode;
use crate::syntax::spec_eval;
use crate::syntax::spec_generate;
use crate::syntax::spec_is_active;
use crate::syntax::spec_render;
use crate::tokens::Delimiter;
use crate::tokens::Token;
use crate::tokens::spec_tokens_text;
use crate::ts::spec_cumulate;
use crate::ts::spec_item_scan;
use crate::ts::spec_items;
use crate::ts::cumulate;
use crate::ts::split_items;

pub mod arm;
pub mod config;
pub mod errors;
pub mod modifiers;
pub mod option;
pub mod parse;
pub mod pattern;
pub mod syntax;
pub mod target;
pub mod tools;
pub mod text;
pub mod tokens;
pub mod ts;

verus! {

/// One emitted piece of output: the rendered `#[cfg]` directive, the
/// documentation attribute (possibly empty) and the decorated tokens.
///
/// The caller attaches the directive texts to the tokens and
/// concatenates the pieces.
#[derive(Debug, PartialEq, Eq)]
pub struct ArmOutput {
    /// The `#[cfg]` directive text.
    pub cfg_ts: String,
    /// The `#[cfg_attr]` documentation attribute text, possibly empty.
    pub attr_ts: String,
    /// The decorated tokens.
    pub content: Vec<Token>,
}

impl View for ArmOutput {
    type V = (Seq<char>, Seq<char>, Seq<Token>);

    open spec fn view(&self) -> (Seq<char>, Seq<char>, Seq<Token>) {
        (self.cfg_ts@, self.attr_ts@, self.content@)
    }
}

/// The views of a sequence of outputs.
pub open spec fn spec_outputs(outs: Seq<ArmOutput>) -> Seq<(Seq<char>, Seq<char>, Seq<Token>)> {
    outs.map_values(|o: ArmOutput| o@)
}

/// The outputs of one arm in declarative mode: each of the body's
/// items under the arm's directive texts.
pub open spec fn spec_arm_outputs(d: (Seq<char>, Seq<char>), content: Seq<Token>) -> Seq<
    (Seq<char>, Seq<char>, Seq<Token>),
> {
    spec_item_scan(content, content.len() as int).items.map_values(
        |it: Seq<Token>| (d.0, d.1, it),
    )
}

/// The outputs of the first `i` arms in declarative mode.
pub open spec fn spec_target_outputs(
    avs: Seq<ArmView>,
    dirs: Seq<(Seq<char>, Seq<char>)>,
    i: int,
) -> Seq<(Seq<char>, Seq<char>, Seq<Token>)>
    decreases i,
{
    if i <= 0 {
        Seq::empty()
    } else {
        spec_target_outputs(avs, dirs, i - 1) + spec_arm_outputs(dirs[i - 1], avs[i - 1].content)
    }
}

/// What a successful declarative invocation produces over `stream`:
/// the arms extracted and sound, their directives generated, and each
/// arm's items emitted under its directives.
pub open spec fn spec_target_cfg_ok(
    stream: Seq<Token>,
    alias_store: Seq<(String, String)>,
    predicate_store: Seq<(String, String)>,
    debug_build: bool,
    release_modifier_panic: bool,
    autodoc: bool,
    docsrs: bool,
    outs: Seq<(Seq<char>, Seq<char>, Seq<Token>)>,
) -> bool {
    let fuel = (alias_store.len() + 13) as nat;
    match spec_extract_arms(stream, debug_build, release_modifier_panic) {
        Ok(avs) => {
            &&& spec_verify_arms(CfgBoostMacroSource::TargetMacro, avs) == Ok::<(), ErrorView>(())
            &&& !spec_any_panic(avs)
            &&& match spec_target_directives(
                avs,
                avs.len() as int,
                alias_store,
                predicate_store,
                fuel,
                debug_build,
                autodoc,
                docsrs,
            ) {
                Ok(ds) => outs == spec_target_outputs(avs, ds, avs.len() as int),
                Err(_) => false,
            }
        },
        Err(_) => false,
    }
}

/// What a failed declarative invocation produces over `stream`: the
/// error of extraction, of the integrity checks, or of directive
/// generation, whichever comes first.
pub open spec fn spec_target_cfg_err(
    stream: Seq<Token>,
    alias_store: Seq<(String, String)>,
    predicate_store: Seq<(String, String)>,
    debug_build: bool,
    release_modifier_panic: bool,
    autodoc: bool,
    docsrs: bool,
    e: ErrorView,
) -> bool {
    let fuel = (alias_store.len() + 13) as nat;
    match spec_extract_arms(stream, debug_build, release_modifier_panic) {
        Err(e2) => e == e2,
        Ok(avs) => match spec_verify_arms(CfgBoostMacroSource::TargetMacro, avs) {
            Err(e2) => e == e2,
            Ok(_) => match spec_target_directives(
                avs,
                avs.len() as int,
                alias_store,
                predicate_store,
                fuel,
                debug_build,
                autodoc,
                docsrs,
            ) {
                Err(e2) => e == e2,
                Ok(_) => spec_any_panic(avs) && e == ErrorView::ArmPanicDump(
                    spec_panic_dump_message(avs),
                ),
            },
        },
    }
}

/// The whole dump message of the arms carrying the panic modifier.
pub open spec fn spec_panic_dump_message(avs: Seq<ArmView>) -> Seq<char> {
    "\n*** Macro panicked because some arm have the `@` modifier ***\n"@ + spec_panic_dump(
        avs,
        avs.len() as int,
    )
}

/// Declare items under conditional-compilation arms: any arm whose
/// directive holds is included.
///
/// Each arm's body is split into items and every item is emitted under
/// the arm's `#[cfg]` directive and documentation attribute; the
/// caller attaches them.  An arm carrying the panic (`@`) modifier
/// aborts the invocation with the arms' dump instead.  See
/// `spec_target_cfg_ok` and `spec_target_cfg_err`.
pub fn target_cfg(item: Vec<Token>, ctx: &CfgContext) -> (r: Result<Vec<ArmOutput>, CfgBoostError>)
    requires
        ctx.alias_store@.len() + 13 <= usize::MAX,
    ensures
        match r {
            Ok(outs) => spec_target_cfg_ok(
                item@,
                ctx.alias_store@,
                ctx.predicate_store@,
                ctx.debug_build,
                ctx.release_modifier_panic,
                ctx.autodoc,
                ctx.docsrs,
                spec_outputs(outs@),
            ),
            Err(e) => spec_target_cfg_err(
                item@,
                ctx.alias_store@,
                ctx.predicate_store@,
                ctx.debug_build,
                ctx.release_modifier_panic,
                ctx.autodoc,
                ctx.docsrs,
                e@,
            ),
        },
{
    let arms = match TargetArm::extract(
        item,
        CfgBoostMacroSource::TargetMacro,
        ctx.debug_build,
        ctx.release_modifier_panic,
    ) {
        Ok(a) => a,
        Err(e) => {
            return Err(e);
        },
    };
    let dirs = match TargetArm::generate_arms_predicate(
        CfgBoostMacroSource::TargetMacro,
        &arms,
        &ctx.alias_store,
        &ctx.predicate_store,
        ctx.debug_build,
        ctx.autodoc,
        ctx.docsrs,
    ) {
        Ok(d) => d,
        Err(e) => {
            return Err(e);
        },
    };
    if let Some(dump) = TargetArm::panic_arms_message(&arms) {
        return Err(CfgBoostError::ArmPanicDump(dump));
    }
    let ghost avs = spec_arms(arms@);
    let ghost ds = crate::arm::spec_directives(dirs@);
    proof {
        crate::arm::lemma_target_directives_len(
            avs,
            avs.len() as int,
            ctx.alias_store@,
            ctx.predicate_store@,
            (ctx.alias_store@.len() + 13) as nat,
            ctx.debug_build,
            ctx.autodoc,
            ctx.docsrs,
        );
        assert(dirs@.len() == avs.len());
        assert(avs.skip(0) =~= avs);
    }
    let n = arms.len();
    let mut arms = arms;
    let mut outs: Vec<ArmOutput> = Vec::new();
    let mut i: usize = 0;
    proof {
        assert(spec_outputs(outs@) =~= Seq::<(Seq<char>, Seq<char>, Seq<Token>)>::empty());
    }
    #[verifier::loop_isolation(false)]
    while arms.len() > 0
        invariant
            i + arms@.len() == n,
            i <= dirs@.len(),
            n == dirs@.len(),
            spec_arms(arms@) =~= avs.skip(i as int),
            spec_outputs(outs@) == spec_target_outputs(avs, ds, i as int),
        decreases arms@.len(),
    {
        proof {
            assert(spec_arms(arms@)[0] == avs.skip(i as int)[0]);
            assert(arms@[0]@ == avs[i as int]);
        }
        let ghost arms_pre = arms@;
        let arm = arms.remove(0);
        proof {
            assert(arms@ =~= arms_pre.skip(1));
            assert forall|j: int| 0 <= j < arms@.len() implies spec_arms(arms@)[j] == avs.skip(
                i + 1,
            )[j] by {
                assert(spec_arms(arms@)[j] == arms@[j]@);
                assert(arms@[j] == arms_pre[j + 1]);
                assert(spec_arms(arms_pre)[j + 1] == arms_pre[j + 1]@);
            }
            assert(spec_arms(arms@) =~= avs.skip(i + 1));
        }
        let mut items = split_items(arm.content);
        let ghost content_view = arm.content@;
        let ghost all_items = spec_item_scan(content_view, content_view.len() as int).items;
        let ghost mut k: int = 0;
        proof {
            assert(spec_items(items@) =~= all_items);
            assert(spec_arm_outputs(ds[i as int], content_view).take(0)
                =~= Seq::<(Seq<char>, Seq<char>, Seq<Token>)>::empty());
            assert(spec_outputs(outs@) =~= spec_target_outputs(avs, ds, i as int)
                + spec_arm_outputs(ds[i as int], content_view).take(0));
        }
        #[verifier::loop_isolation(false)]
        while items.len() > 0
            invariant
                0 <= k <= all_items.len(),
                spec_items(items@) =~= all_items.skip(k),
                spec_outputs(outs@) =~= spec_target_outputs(avs, ds, i as int) + spec_arm_outputs(
                    ds[i as int],
                    content_view,
                ).take(k),
            decreases items@.len(),
        {
            proof {
                assert(spec_items(items@)[0] == all_items[k]);
                assert(items@[0]@ == all_items[k]);
            }
            let ghost items_pre = items@;
            let it = items.remove(0);
            let ghost outs_pre = outs@;
            outs.push(
                ArmOutput {
                    cfg_ts: String::from_str(dirs[i].cfg_ts.as_str()),
                    attr_ts: String::from_str(dirs[i].attr_ts.as_str()),
                    content: it,
                },
            );
            proof {
                assert(items@ =~= items_pre.skip(1));
                assert forall|j: int| 0 <= j < items@.len() implies spec_items(items@)[j]
                    == all_items.skip(k + 1)[j] by {
                    assert(spec_items(items@)[j] == items@[j]@);
                    assert(items@[j] == items_pre[j + 1]);
                    assert(spec_items(items_pre)[j + 1] == items_pre[j + 1]@);
                    assert(spec_items(items_pre)[j + 1] == all_items.skip(k as int)[j + 1]);
                }
                assert(spec_items(items@) =~= all_items.skip(k + 1));
                assert(spec_outputs(outs@) =~= spec_outputs(outs_pre).push(
                    outs@[outs@.len() - 1]@,
                ));
                assert(spec_arm_outputs(ds[i as int], content_view).take(k + 1)
                    =~= spec_arm_outputs(ds[i as int], content_view).take(k).push(
                    spec_arm_outputs(ds[i as int], content_view)[k],
                ));
                assert(spec_outputs(outs@) =~= spec_target_outputs(avs, ds, i as int)
                    + spec_arm_outputs(ds[i as int], content_view).take(k + 1));
                k = k + 1;
            }
        }
        proof {
            assert(spec_arm_outputs(ds[i as int], content_view).take(k) =~= spec_arm_outputs(
                ds[i as int],
                content_view,
            ));
            assert(spec_outputs(outs@) =~= spec_target_outputs(avs, ds, i + 1));
        }
        i = i + 1;
    }
    Ok(outs)
}

/// The tree of one arm in match mode: always-true for the wildcard,
/// the precomputed activity of its rendered native directive for
/// legacy syntax, and the parsed predicate tree for simplified syntax.
pub open spec fn spec_arm_match_tree(
    arm: ArmView,
    alias_store: Seq<(String, String)>,
    active: Seq<String>,
    fuel: nat,
) -> Result<NodeView, ErrorView> {
    match arm.arm_type {
        TargetArmType::Wildcard => Ok(NodeView::Fixed(true)),
        TargetArmType::Legacy => match spec_legacy_pred(arm.arm_ts, 0) {
            Ok(txt) => Ok(NodeView::Fixed(spec_is_active(active, txt))),
            Err(e) => Err(e),
        },
        TargetArmType::Simplified => spec_generate(
            spec_tokens_text(arm.arm_ts),
            alias_store,
            Seq::empty(),
            fuel,
        ),
    }
}

/// An activate or deactivate modifier forces the arm's tree to the
/// precomputed boolean it names.
pub open spec fn spec_arm_eff_tree(arm: ArmView, t: NodeView) -> NodeView {
    match arm.modifier {
        TargetArmModifier::Activate => NodeView::Fixed(true),
        TargetArmModifier::Deactivate => NodeView::Fixed(false),
        _ => t,
    }
}

/// The match-mode run over the first `i` arms: each arm's tree is
/// folded into the cumulative tree, whose rendered text is the arm's
/// directive and whose evaluation selects the arm's body; the number
/// of selected arms is counted.
pub open spec fn spec_match_run(
    avs: Seq<ArmView>,
    i: int,
    alias_store: Seq<(String, String)>,
    predicate_store: Seq<(String, String)>,
    active: Seq<String>,
    fuel: nat,
) -> Result<(Seq<(Seq<char>, Seq<char>, Seq<Token>)>, int, NodeView), ErrorView>
    decreases i,
{
    if i <= 0 {
        Ok((Seq::empty(), 0, NodeView::Empty))
    } else {
        match spec_match_run(avs, i - 1, alias_store, predicate_store, active, fuel) {
            Err(e) => Err(e),
            Ok((outs, count, cumul)) => match spec_arm_match_tree(
                avs[i - 1],
                alias_store,
                active,
                fuel,
            ) {
                Err(e) => Err(e),
                Ok(t0) => {
                    let cumul2 = spec_cumulate(cumul, spec_arm_eff_tree(avs[i - 1], t0));
                    match spec_render(cumul2, predicate_store) {
                        Err(k) => Err(ErrorView::InvalidConfigurationPredicate(k)),
                        Ok(txt) => match spec_eval(cumul2, predicate_store, active) {
                            Err(k) => Err(ErrorView::InvalidConfigurationPredicate(k)),
                            Ok(sel) => Ok(
                                (
                                    if sel {
                                        outs.push(
                                            (
                                                "#[cfg("@ + txt + ")]"@,
                                                Seq::<char>::empty(),
                                                avs[i - 1].content,
                                            ),
                                        )
                                    } else {
                                        outs
                                    },
                                    count + if sel {
                                        1int
                                    } else {
                                        0int
                                    },
                                    cumul2,
                                ),
                            ),
                        },
                    }
                },
            },
        }
    }
}

/// A run error in a prefix is the whole run's outcome.
proof fn lemma_match_run_err(
    avs: Seq<ArmView>,
    i: int,
    j: int,
    alias_store: Seq<(String, String)>,
    predicate_store: Seq<(String, String)>,
    active: Seq<String>,
    fuel: nat,
)
    requires
        0 <= i <= j,
        spec_match_run(avs, i, alias_store, predicate_store, active, fuel) is Err,
    ensures
        spec_match_run(avs, j, alias_store, predicate_store, active, fuel) == spec_match_run(
            avs,
            i,
            alias_store,
            predicate_store,
            active,
            fuel,
        ),
    decreases j - i,
{
    if j > i {
        lemma_match_run_err(avs, i, j - 1, alias_store, predicate_store, active, fuel);
    }
}

/// The count of selected arms never exceeds the arms examined.
proof fn lemma_match_run_count(
    avs: Seq<ArmView>,
    i: int,
    alias_store: Seq<(String, String)>,
    predicate_store: Seq<(String, String)>,
    active: Seq<String>,
    fuel: nat,
)
    requires
        0 <= i,
    ensures
        spec_match_run(avs, i, alias_store, predicate_store, active, fuel) matches Ok(p) ==> 0
            <= p.1 <= i,
    decreases i,
{
    if i > 0 {
        lemma_match_run_count(avs, i - 1, alias_store, predicate_store, active, fuel);
    }
}

/// Select exactly one conditional-compilation arm, like a `match`.
///
/// Arms are extracted and checked (a final wildcard arm is required),
/// each arm's predicate tree is folded into the cumulative tree that
/// negates all prior arms, and the arm is selected when its cumulative
/// directive evaluates to true under the active configuration.  The
/// selected bodies are returned with their rendered directives, along
/// with the active-arm counter, whose count must equal one.  An arm
/// carrying the panic (`@`) modifier aborts the invocation with the
/// arms' dump instead.
pub fn match_cfg(item: Vec<Token>, ctx: &CfgContext) -> (r: Result<
    (Vec<ArmOutput>, TargetActiveCounter),
    CfgBoostError,
>)
    requires
        ctx.alias_store@.len() + 13 <= usize::MAX,
    ensures
        ({
            let fuel = (ctx.alias_store@.len() + 13) as nat;
            match r {
                Ok(p) => match spec_extract_arms(
                    item@,
                    ctx.debug_build,
                    ctx.release_modifier_panic,
                ) {
                    Ok(avs) => {
                        &&& spec_verify_arms(CfgBoostMacroSource::MatchMacro, avs) == Ok::<
                            (),
                            ErrorView,
                        >(())
                        &&& !spec_any_panic(avs)
                        &&& match spec_match_run(
                            avs,
                            avs.len() as int,
                            ctx.alias_store@,
                            ctx.predicate_store@,
                            ctx.active_cfg@,
                            fuel,
                        ) {
                            Ok(q) => spec_outputs(p.0@) == q.0 && p.1.counter == q.1 && q.1 == 1
                                && p.1.operator == TargetActiveComparisonOperator::Equal
                                && p.1.control == 1,
                            Err(_) => false,
                        }
                    },
                    Err(_) => false,
                },
                Err(e) => match spec_extract_arms(
                    item@,
                    ctx.debug_build,
                    ctx.release_modifier_panic,
                ) {
                    Err(e2) => e@ == e2,
                    Ok(avs) => match spec_verify_arms(CfgBoostMacroSource::MatchMacro, avs) {
                        Err(e2) => e@ == e2,
                        Ok(_) => if spec_any_panic(avs) {
                            e@ == ErrorView::ArmPanicDump(spec_panic_dump_message(avs))
                        } else {
                            match spec_match_run(
                            avs,
                            avs.len() as int,
                            ctx.alias_store@,
                            ctx.predicate_store@,
                            ctx.active_cfg@,
                            fuel,
                        ) {
                                Err(e2) => e@ == e2,
                                Ok(q) => q.1 != 1 && e@ == ErrorView::ActiveBranchCountError(
                                    q.1,
                                    TargetActiveComparisonOperator::Equal,
                                    1,
                                ),
                            }
                        },
                    },
                },
            }
        }),
{
    let arms = match TargetArm::extract(
        item,
        CfgBoostMacroSource::MatchMacro,
        ctx.debug_build,
        ctx.release_modifier_panic,
    ) {
        Ok(a) => a,
        Err(e) => {
            return Err(e);
        },
    };
    if let Some(dump) = TargetArm::panic_arms_message(&arms) {
        return Err(CfgBoostError::ArmPanicDump(dump));
    }
    let ghost avs = spec_arms(arms@);
    let ghost fuel_g = (ctx.alias_store@.len() + 13) as nat;
    let n = arms.len();
    let mut arms = arms;
    let mut outs: Vec<ArmOutput> = Vec::new();
    let mut counter = TargetActiveCounter {
        branch_type: TargetBranchType::Normal,
        counter: 0,
        operator: TargetActiveComparisonOperator::Equal,
        control: 1,
    };
    let mut cumul = SyntaxTreeNode::Empty;
    let mut i: usize = 0;
    proof {
        assert(spec_outputs(outs@) =~= Seq::<(Seq<char>, Seq<char>, Seq<Token>)>::empty());
        assert(avs.skip(0) =~= avs);
    }
    #[verifier::loop_isolation(false)]
    while arms.len() > 0
        invariant
            i + arms@.len() == n,
            spec_arms(arms@) =~= avs.skip(i as int),
            counter.counter <= i,
            counter.operator == TargetActiveComparisonOperator::Equal,
            counter.control == 1,
            counter.branch_type == TargetBranchType::Normal,
            spec_match_run(avs, i as int, ctx.alias_store@, ctx.predicate_store@, ctx.active_cfg@, fuel_g)
                == Ok::<(Seq<(Seq<char>, Seq<char>, Seq<Token>)>, int, NodeView), ErrorView>(
                (spec_outputs(outs@), counter.counter as int, cumul@),
            ),
        decreases arms@.len(),
    {
        proof {
            assert(spec_arms(arms@)[0] == avs.skip(i as int)[0]);
            assert(arms@[0]@ == avs[i as int]);
        }
        let ghost arms_pre = arms@;
        let arm = arms.remove(0);
        proof {
            assert(arms@ =~= arms_pre.skip(1));
            assert forall|j: int| 0 <= j < arms@.len() implies spec_arms(arms@)[j] == avs.skip(
                i + 1,
            )[j] by {
                assert(spec_arms(arms@)[j] == arms@[j]@);
                assert(arms@[j] == arms_pre[j + 1]);
                assert(spec_arms(arms_pre)[j + 1] == arms_pre[j + 1]@);
            }
            assert(spec_arms(arms@) =~= avs.skip(i + 1));
        }
        let tree0 = match arm.arm_type {
            TargetArmType::Wildcard => SyntaxTreeNode::Fixed(true),
            TargetArmType::Legacy => {
                match crate::arm::extract_legacy_predicates(&arm.arm_ts, 0) {
                    Ok(txt) => {
                        let act = crate::syntax::text_is_active(&ctx.active_cfg, txt.as_str());
                        SyntaxTreeNode::Fixed(act)
                    },
                    Err(e) => {
                        proof {
                            lemma_match_run_err(
                                avs,
                                i + 1,
                                n as int,
                                ctx.alias_store@,
                                ctx.predicate_store@,
                                ctx.active_cfg@,
                                fuel_g,
                            );
                        }
                        return Err(e);
                    },
                }
            },
            TargetArmType::Simplified => {
                let text = crate::tokens::tokens_text(&arm.arm_ts);
                match SyntaxTreeNode::generate(text.as_str(), &ctx.alias_store) {
                    Ok(t) => t,
                    Err(e) => {
                        proof {
                            lemma_match_run_err(
                                avs,
                                i + 1,
                                n as int,
                                ctx.alias_store@,
                                ctx.predicate_store@,
                                ctx.active_cfg@,
                                fuel_g,
                            );
                        }
                        return Err(e);
                    },
                }
            },
        };
        let tree = match arm.modifier {
            TargetArmModifier::Activate => SyntaxTreeNode::Fixed(true),
            TargetArmModifier::Deactivate => SyntaxTreeNode::Fixed(false),
            _ => tree0,
        };
        cumul = cumulate(cumul, tree);
        let txt = match cumul.to_text(&ctx.predicate_store) {
            Ok(t) => t,
            Err(e) => {
                proof {
                    lemma_match_run_err(
                        avs,
                        i + 1,
                        n as int,
                        ctx.alias_store@,
                        ctx.predicate_store@,
                        ctx.active_cfg@,
                        fuel_g,
                    );
                }
                return Err(e);
            },
        };
        let sel = match cumul.evaluate(&ctx.predicate_store, &ctx.active_cfg) {
            Ok(b) => b,
            Err(e) => {
                proof {
                    lemma_match_run_err(
                        avs,
                        i + 1,
                        n as int,
                        ctx.alias_store@,
                        ctx.predicate_store@,
                        ctx.active_cfg@,
                        fuel_g,
                    );
                }
                return Err(e);
            },
        };
        if sel {
            counter.inc();
            let mut cfg_ts = String::from_str("#[cfg(");
            cfg_ts.append(txt.as_str());
            cfg_ts.append(")]");
            let ghost outs_pre = outs@;
            outs.push(ArmOutput { cfg_ts, attr_ts: String::new(), content: arm.content });
            proof {
                assert(spec_outputs(outs@) =~= spec_outputs(outs_pre).push(
                    outs@[outs@.len() - 1]@,
                ));
            }
        }
        i = i + 1;
    }
    proof {
        assert(avs.skip(n as int).len() == 0);
    }
    if !counter.validate() {
        return Err(
            CfgBoostError::ActiveBranchCountError(
                counter.get_counter(),
                counter.operator,
                counter.control,
            ),
        );
    }
    Ok((outs, counter))
}

/// Gate one item behind a simplified predicate, like the native
/// conditional-compilation attribute.
///
/// The attribute tokens and the braced item are reassembled into a
/// single declarative arm and handed to `target_cfg`.
pub fn meta_cfg(attr: Vec<Token>, item: Vec<Token>, ctx: &CfgContext) -> (r: Result<
    Vec<ArmOutput>,
    CfgBoostError,
>)
    requires
        ctx.alias_store@.len() + 13 <= usize::MAX,
    ensures
        ({
            let stream = attr@ + seq![
                Token::Punct('='),
                Token::Punct('>'),
                Token::Group(Delimiter::Brace, item),
            ];
            match r {
                Ok(outs) => spec_target_cfg_ok(
                    stream,
                    ctx.alias_store@,
                    ctx.predicate_store@,
                    ctx.debug_build,
                    ctx.release_modifier_panic,
                    ctx.autodoc,
                    ctx.docsrs,
                    spec_outputs(outs@),
                ),
                Err(e) => spec_target_cfg_err(
                    stream,
                    ctx.alias_store@,
                    ctx.predicate_store@,
                    ctx.debug_build,
                    ctx.release_modifier_panic,
                    ctx.autodoc,
                    ctx.docsrs,
                    e@,
                ),
            }
        }),
{
    let ghost attr0 = attr@;
    let ghost item0 = item;
    let mut stream = attr;
    stream.push(Token::Punct('='));
    stream.push(Token::Punct('>'));
    stream.push(Token::Group(Delimiter::Brace, item));
    proof {
        assert(stream@ =~= attr0 + seq![
            Token::Punct('='),
            Token::Punct('>'),
            Token::Group(Delimiter::Brace, item0),
        ]);
    }
    target_cfg(stream, ctx)
}

} // verus!
