//! The evaluated pipeline: fold the branch list into selected output,
//! guarded by the active-arm counter.
use vstd::prelude::*;
use vstd::string::StringExecFns;

use crate::errors::CfgBoostError;
use crate::errors::ErrorView;
use crate::modifiers::TargetActiveCounter;
use crate::modifiers::TargetAttributeModifier;
use crate::option::TargetAttributeOption;
use crate::modifiers::TargetBranch;
use crate::modifiers::TargetBranchType;
use crate::modifiers::TargetCfgModifier;
use crate::modifiers::spec_branches;
use crate::modifiers::spec_from_match_scan;
use crate::modifiers::BranchView;
use crate::syntax::NodeView;
use crate::syntax::SyntaxTreeNode;
use crate::syntax::spec_eval;
use crate::syntax::spec_generate;
use crate::syntax::spec_render;
use crate::tools::spec_extract_modifier;
use crate::ts::spec_item_scan;
use crate::ts::spec_items;
use crate::ts::split_items;
use crate::tokens::Token;
use crate::tokens::spec_tokens_text;
use crate::tokens::tokens_text;

verus! {

/// One piece of selected output: a documentation attribute (possibly
/// empty) and the tokens it decorates.
#[derive(Debug, PartialEq, Eq)]
pub struct BranchOutput {
    /// The `#[cfg_attr]` documentation attribute text, possibly empty.
    pub attr_ts: String,
    /// The decorated tokens.
    pub content: Vec<Token>,
}

/// The documentation attribute header over a rendered condition.
pub open spec fn spec_doc_attr_header(rendered: Seq<char>) -> Seq<char> {
    "#[cfg_attr(docsrs, doc(cfg("@ + rendered + ")))]"@
}

/// The view pairs of branch outputs.
pub open spec fn spec_branch_outs(outs: Seq<BranchOutput>) -> Seq<(Seq<char>, Seq<Token>)> {
    outs.map_values(|o: BranchOutput| (o.attr_ts@, o.content@))
}

/// What emitting one activated branch produces: inside a function the
/// body passes through bare; outside, each of its items is decorated
/// with the documentation attribute header over the rendered tree.
pub open spec fn spec_activate_outputs(
    inner: bool,
    t: NodeView,
    content: Seq<Token>,
    store: Seq<(String, String)>,
) -> Result<Seq<(Seq<char>, Seq<Token>)>, Seq<char>> {
    if inner {
        Ok(seq![(Seq::<char>::empty(), content)])
    } else {
        match spec_render(t, store) {
            Ok(s) => Ok(
                spec_item_scan(content, content.len() as int).items.map_values(
                    |it: Seq<Token>| (spec_doc_attr_header(s), it),
                ),
            ),
            Err(k) => Err(k),
        }
    }
}

/// Emit one activated branch: count it, and decorate its items with
/// the documentation attribute header unless the macro runs inside a
/// function.  See `spec_activate_outputs`.
pub fn target_cfg_activate_branch(
    branch_cpt: &mut TargetActiveCounter,
    options: &TargetCfgModifier,
    syntax_tree: &SyntaxTreeNode,
    item: Vec<Token>,
    outs: &mut Vec<BranchOutput>,
    store: &Vec<(String, String)>,
) -> (r: Result<(), CfgBoostError>)
    requires
        old(branch_cpt).counter < usize::MAX,
    ensures
        final(branch_cpt).branch_type == old(branch_cpt).branch_type,
        final(branch_cpt).operator == old(branch_cpt).operator,
        final(branch_cpt).control == old(branch_cpt).control,
        final(branch_cpt).counter == if old(branch_cpt).branch_type is Added {
            old(branch_cpt).counter as int
        } else {
            old(branch_cpt).counter + 1
        },
        match r {
            Ok(_) => spec_activate_outputs(options.is_inner_macro, syntax_tree@, item@, store@)
                matches Ok(o) && spec_branch_outs(final(outs)@) == spec_branch_outs(old(outs)@)
                + o,
            Err(e) => spec_activate_outputs(options.is_inner_macro, syntax_tree@, item@, store@)
                matches Err(k) && e@ == ErrorView::InvalidConfigurationPredicate(k)
                && spec_branch_outs(final(outs)@) == spec_branch_outs(old(outs)@),
        },
{
    branch_cpt.inc();
    if options.is_inner_macro {
        let ghost outs_pre = outs@;
        outs.push(BranchOutput { attr_ts: String::new(), content: item });
        proof {
            assert(spec_branch_outs(outs@) =~= spec_branch_outs(outs_pre) + seq![
                (Seq::<char>::empty(), outs@[outs@.len() - 1].content@),
            ]);
        }
        Ok(())
    } else {
        let rendered = match syntax_tree.to_text(store) {
            Ok(s) => s,
            Err(e) => {
                return Err(e);
            },
        };
        let mut attr_ts = String::from_str("#[cfg_attr(docsrs, doc(cfg(");
        attr_ts.append(rendered.as_str());
        attr_ts.append(")))]");
        let ghost content_view = item@;
        let ghost all = spec_item_scan(content_view, content_view.len() as int).items.map_values(
            |it: Seq<Token>| (spec_doc_attr_header(rendered@), it),
        );
        let mut items = split_items(item);
        let ghost mut k: int = 0;
        proof {
            assert(spec_items(items@) =~= spec_item_scan(
                content_view,
                content_view.len() as int,
            ).items);
            assert(spec_branch_outs(outs@) =~= spec_branch_outs(old(outs)@) + all.take(0));
        }
        #[verifier::loop_isolation(false)]
        while items.len() > 0
            invariant
                0 <= k <= all.len(),
                spec_items(items@) =~= spec_item_scan(
                    content_view,
                    content_view.len() as int,
                ).items.skip(k),
                attr_ts@ == spec_doc_attr_header(rendered@),
                spec_branch_outs(outs@) =~= spec_branch_outs(old(outs)@) + all.take(k),
            decreases items@.len(),
        {
            proof {
                assert(spec_items(items@)[0] == spec_item_scan(
                    content_view,
                    content_view.len() as int,
                ).items.skip(k)[0]);
                assert(items@[0]@ == spec_item_scan(
                    content_view,
                    content_view.len() as int,
                ).items[k]);
            }
            let ghost items_pre = items@;
            let it = items.remove(0);
            let ghost outs_pre = outs@;
            outs.push(BranchOutput { attr_ts: attr_ts.clone(), content: it });
            proof {
                assert(items@ =~= items_pre.skip(1));
                assert forall|j: int| 0 <= j < items@.len() implies spec_items(items@)[j]
                    == spec_item_scan(content_view, content_view.len() as int).items.skip(
                    k + 1,
                )[j] by {
                    assert(spec_items(items@)[j] == items@[j]@);
                    assert(items@[j] == items_pre[j + 1]);
                    assert(spec_items(items_pre)[j + 1] == items_pre[j + 1]@);
                }
                assert(spec_items(items@) =~= spec_item_scan(
                    content_view,
                    content_view.len() as int,
                ).items.skip(k + 1));
                assert(spec_branch_outs(outs@) =~= spec_branch_outs(outs_pre).push(
                    (outs@[outs@.len() - 1].attr_ts@, outs@[outs@.len() - 1].content@),
                ));
                assert(all.take(k + 1) =~= all.take(k).push(all[k]));
                assert(spec_branch_outs(outs@) =~= spec_branch_outs(old(outs)@) + all.take(k + 1));
                k = k + 1;
            }
        }
        proof {
            assert(all.take(k) =~= all);
        }
        Ok(())
    }
}

/// The tree of one branch: a normal branch parses its attributes, an
/// added or exclusive branch turns into the precomputed boolean that
/// the count of branches selected before it dictates.
pub open spec fn spec_branch_tree(
    b: BranchView,
    attr: Seq<Token>,
    count: int,
    alias_store: Seq<(String, String)>,
    fuel: nat,
) -> Result<NodeView, ErrorView> {
    match b.branch_type {
        TargetBranchType::Normal => spec_generate(
            spec_tokens_text(attr),
            alias_store,
            Seq::empty(),
            fuel,
        ),
        TargetBranchType::Added => Ok(NodeView::Fixed(count > 0)),
        TargetBranchType::Exclusive => Ok(NodeView::Fixed(count == 0)),
    }
}

/// Emit one selected branch into the pipeline's state.
pub open spec fn spec_branch_emit(
    outs: Seq<(Seq<char>, Seq<Token>)>,
    count: int,
    b: BranchView,
    tree: NodeView,
    options: TargetCfgModifier,
    predicate_store: Seq<(String, String)>,
) -> Result<(Seq<(Seq<char>, Seq<Token>)>, int), ErrorView> {
    match spec_activate_outputs(options.is_inner_macro, tree, b.content, predicate_store) {
        Err(k) => Err(ErrorView::InvalidConfigurationPredicate(k)),
        Ok(o) => Ok(
            (
                outs + o,
                count + if b.branch_type is Added {
                    0int
                } else {
                    1int
                },
            ),
        ),
    }
}

/// The branch pipeline over the first `i` branches: the selected
/// output pairs and the count of selected branches.
pub open spec fn spec_branch_pipeline(
    branchs: Seq<BranchView>,
    i: int,
    options: TargetCfgModifier,
    alias_store: Seq<(String, String)>,
    predicate_store: Seq<(String, String)>,
    active: Seq<String>,
    debug_build: bool,
    fuel: nat,
) -> Result<(Seq<(Seq<char>, Seq<Token>)>, int), ErrorView>
    decreases i,
{
    if i <= 0 {
        Ok((Seq::empty(), 0))
    } else {
        match spec_branch_pipeline(
            branchs,
            i - 1,
            options,
            alias_store,
            predicate_store,
            active,
            debug_build,
            fuel,
        ) {
            Err(e) => Err(e),
            Ok((outs, count)) => {
                let b = branchs[i - 1];
                let pair = spec_extract_modifier(b.attr);
                if pair.1.len() == 0 {
                    Err(ErrorView::EmptyArm)
                } else {
                    match spec_from_match_scan(options, pair.0, pair.0.len() as int) {
                        Err(e) => Err(e),
                        Ok(scanned) => match spec_branch_tree(b, pair.1, count, alias_store, fuel) {
                            Err(e) => Err(e),
                            Ok(tree) => match scanned.0.always_this {
                                Some(act) => if !debug_build && options.activate_branch_guard {
                                    Err(ErrorView::ModifierPanicRelease)
                                } else if act {
                                    spec_branch_emit(
                                        outs,
                                        count,
                                        b,
                                        tree,
                                        options,
                                        predicate_store,
                                    )
                                } else {
                                    Ok((outs, count))
                                },
                                None => if options.allow_doc {
                                    spec_branch_emit(
                                        outs,
                                        count,
                                        b,
                                        tree,
                                        options,
                                        predicate_store,
                                    )
                                } else {
                                    match spec_eval(tree, predicate_store, active) {
                                        Err(k) => Err(
                                            ErrorView::InvalidConfigurationPredicate(k),
                                        ),
                                        Ok(true) => spec_branch_emit(
                                            outs,
                                            count,
                                            b,
                                            tree,
                                            options,
                                            predicate_store,
                                        ),
                                        Ok(false) => Ok((outs, count)),
                                    }
                                },
                            },
                        },
                    }
                }
            },
        }
    }
}

/// A pipeline error in a prefix is the whole pipeline's outcome.
proof fn lemma_branch_pipeline_err(
    branchs: Seq<BranchView>,
    i: int,
    j: int,
    options: TargetCfgModifier,
    alias_store: Seq<(String, String)>,
    predicate_store: Seq<(String, String)>,
    active: Seq<String>,
    debug_build: bool,
    fuel: nat,
)
    requires
        0 <= i <= j,
        spec_branch_pipeline(
            branchs,
            i,
            options,
            alias_store,
            predicate_store,
            active,
            debug_build,
            fuel,
        ) is Err,
    ensures
        spec_branch_pipeline(
            branchs,
            j,
            options,
            alias_store,
            predicate_store,
            active,
            debug_build,
            fuel,
        ) == spec_branch_pipeline(
            branchs,
            i,
            options,
            alias_store,
            predicate_store,
            active,
            debug_build,
            fuel,
        ),
    decreases j - i,
{
    if j > i {
        lemma_branch_pipeline_err(
            branchs,
            i,
            j - 1,
            options,
            alias_store,
            predicate_store,
            active,
            debug_build,
            fuel,
        );
    }
}

/// Generate the selected content of an invocation from its branches.
///
/// Each branch's tree is built from its attributes (added and
/// exclusive branches turn into the precomputed boolean that their
/// position dictates), an override modifier forces the outcome — but
/// is refused outside debug builds while the guard is active — and a
/// surviving branch is selected when documentation is allowed or its
/// tree evaluates to true.  When the guard is active, the final count
/// of selected branches must satisfy the configured comparison.  The
/// panic print (`#`) toggle aborts the invocation with the branches'
/// dump instead.
pub fn generate_target_cfg_content(
    branchs: Vec<TargetBranch>,
    options: &TargetCfgModifier,
    alias_store: &Vec<(String, String)>,
    predicate_store: &Vec<(String, String)>,
    active: &Vec<String>,
    debug_build: bool,
) -> (r: Result<(Vec<BranchOutput>, TargetActiveCounter), CfgBoostError>)
    requires
        alias_store@.len() + 13 <= usize::MAX,
    ensures
        ({
            let bvs = spec_branches(branchs@);
            let fuel = (alias_store@.len() + 13) as nat;
            let run = spec_branch_pipeline(
                bvs,
                bvs.len() as int,
                *options,
                alias_store@,
                predicate_store@,
                active@,
                debug_build,
                fuel,
            );
            if options.is_panic_result {
                r matches Err(e) && e@ == ErrorView::ArmPanicDump(
                    "\n*** Macro panicked because the invocation has the `#` modifier ***\n"@
                        + crate::modifiers::spec_branches_dump(bvs, bvs.len() as int),
                )
            } else {
            match r {
                Ok(p) => match run {
                    Ok(q) => {
                        &&& spec_branch_outs(p.0@) == q.0
                        &&& p.1.counter == q.1
                        &&& p.1.operator == options.operator
                        &&& p.1.control == options.control
                        &&& options.activate_branch_guard ==> options.operator.spec_compare(
                            q.1,
                            options.control as int,
                        )
                    },
                    Err(_) => false,
                },
                Err(e) => match run {
                    Err(e2) => e@ == e2,
                    Ok(q) => options.activate_branch_guard && !options.operator.spec_compare(
                        q.1,
                        options.control as int,
                    ) && e@ == ErrorView::ActiveBranchCountError(
                        q.1,
                        options.operator,
                        options.control as int,
                    ),
                },
            }
            }
        }),
{
    if options.is_panic_result {
        let dump = TargetBranch::branches_dump_message(&branchs);
        return Err(CfgBoostError::ArmPanicDump(dump));
    }
    let ghost bvs = spec_branches(branchs@);
    let ghost fuel_g = (alias_store@.len() + 13) as nat;
    let n = branchs.len();
    let mut branchs = branchs;
    let mut outs: Vec<BranchOutput> = Vec::new();
    let mut branch_cpt = TargetActiveCounter::new(options);
    let mut i: usize = 0;
    proof {
        assert(bvs.skip(0) =~= bvs);
        assert(spec_branch_outs(outs@) =~= Seq::<(Seq<char>, Seq<Token>)>::empty());
    }
    #[verifier::loop_isolation(false)]
    while branchs.len() > 0
        invariant
            i + branchs@.len() == n,
            spec_branches(branchs@) =~= bvs.skip(i as int),
            branch_cpt.counter <= i,
            branch_cpt.operator == options.operator,
            branch_cpt.control == options.control,
            spec_branch_pipeline(
                bvs,
                i as int,
                *options,
                alias_store@,
                predicate_store@,
                active@,
                debug_build,
                fuel_g,
            ) == Ok::<(Seq<(Seq<char>, Seq<Token>)>, int), ErrorView>(
                (spec_branch_outs(outs@), branch_cpt.counter as int),
            ),
        decreases branchs@.len(),
    {
        proof {
            assert(spec_branches(branchs@)[0] == bvs.skip(i as int)[0]);
            assert(branchs@[0]@ == bvs[i as int]);
        }
        let ghost branchs_pre = branchs@;
        let branch = branchs.remove(0);
        proof {
            assert(branchs@ =~= branchs_pre.skip(1));
            assert forall|j: int| 0 <= j < branchs@.len() implies spec_branches(branchs@)[j]
                == bvs.skip(i + 1)[j] by {
                assert(spec_branches(branchs@)[j] == branchs@[j]@);
                assert(branchs@[j] == branchs_pre[j + 1]);
                assert(spec_branches(branchs_pre)[j + 1] == branchs_pre[j + 1]@);
            }
            assert(spec_branches(branchs@) =~= bvs.skip(i + 1));
        }
        let branch_type = branch.branch_type;
        let (modifier_attr, attr) = crate::tools::extract_modifier(branch.attr);
        if attr.len() == 0 {
            proof {
                lemma_branch_pipeline_err(bvs, i + 1, n as int, *options, alias_store@, predicate_store@, active@, debug_build, fuel_g);
            }
            return Err(CfgBoostError::EmptyArm);
        }
        let opt_attr = match TargetAttributeModifier::from_match(options, &modifier_attr) {
            Ok(o) => o,
            Err(e) => {
                proof {
                    lemma_branch_pipeline_err(bvs, i + 1, n as int, *options, alias_store@, predicate_store@, active@, debug_build, fuel_g);
                }
                return Err(e);
            },
        };
        branch_cpt.set_branch_type(branch_type);
        let syntax_tree = match branch_type {
            TargetBranchType::Normal => {
                let text = tokens_text(&attr);
                match SyntaxTreeNode::generate(text.as_str(), alias_store) {
                    Ok(t) => t,
                    Err(e) => {
                        proof {
                            lemma_branch_pipeline_err(bvs, i + 1, n as int, *options, alias_store@, predicate_store@, active@, debug_build, fuel_g);
                        }
                        return Err(e);
                    },
                }
            },
            TargetBranchType::Added => SyntaxTreeNode::Fixed(branch_cpt.get_counter() > 0),
            TargetBranchType::Exclusive => SyntaxTreeNode::Fixed(branch_cpt.get_counter() == 0),
        };
        match opt_attr.always_this {
            Some(is_activated) => {
                if !debug_build && options.activate_branch_guard {
                    proof {
                        lemma_branch_pipeline_err(bvs, i + 1, n as int, *options, alias_store@, predicate_store@, active@, debug_build, fuel_g);
                    }
                    return Err(CfgBoostError::ModifierPanicRelease);
                }
                if is_activated {
                    match target_cfg_activate_branch(
                        &mut branch_cpt,
                        options,
                        &syntax_tree,
                        branch.content,
                        &mut outs,
                        predicate_store,
                    ) {
                        Ok(_) => {},
                        Err(e) => {
                            proof {
                                lemma_branch_pipeline_err(bvs, i + 1, n as int, *options, alias_store@, predicate_store@, active@, debug_build, fuel_g);
                            }
                            return Err(e);
                        },
                    }
                }
            },
            None => {
                let selected = if options.allow_doc {
                    true
                } else {
                    match syntax_tree.evaluate(predicate_store, active) {
                        Ok(b) => b,
                        Err(e) => {
                            proof {
                                lemma_branch_pipeline_err(bvs, i + 1, n as int, *options, alias_store@, predicate_store@, active@, debug_build, fuel_g);
                            }
                            return Err(e);
                        },
                    }
                };
                if selected {
                    match target_cfg_activate_branch(
                        &mut branch_cpt,
                        options,
                        &syntax_tree,
                        branch.content,
                        &mut outs,
                        predicate_store,
                    ) {
                        Ok(_) => {},
                        Err(e) => {
                            proof {
                                lemma_branch_pipeline_err(bvs, i + 1, n as int, *options, alias_store@, predicate_store@, active@, debug_build, fuel_g);
                            }
                            return Err(e);
                        },
                    }
                }
            },
        }
        i = i + 1;
    }
    proof {
        assert(bvs.skip(n as int).len() == 0);
    }
    if options.activate_branch_guard && !branch_cpt.validate() {
        return Err(
            CfgBoostError::ActiveBranchCountError(
                branch_cpt.get_counter(),
                options.operator,
                options.control,
            ),
        );
    }
    Ok((outs, branch_cpt))
}

/// What activating one attribute-style item produces: the item under
/// the documentation attribute header when documentation is allowed
/// (failing on an unmatched key), the bare item otherwise.
pub open spec fn spec_cfg_target_activate(
    allow_doc: bool,
    t: NodeView,
    item: Seq<Token>,
    store: Seq<(String, String)>,
) -> Result<(Seq<char>, Seq<Token>), Seq<char>> {
    if allow_doc {
        match spec_render(t, store) {
            Ok(s) => Ok((spec_doc_attr_header(s), item)),
            Err(k) => Err(k),
        }
    } else {
        Ok((Seq::empty(), item))
    }
}

/// What the attribute-style entry produces for one item: the
/// activated item exactly when the outcome is overridden to true, or
/// not overridden and documentation is allowed or the tree evaluates
/// to true; nothing when the outcome is false; the unmatched key of
/// the evaluation or rendering otherwise.
pub open spec fn spec_cfg_target_content(
    options: TargetAttributeOption,
    t: NodeView,
    item: Seq<Token>,
    store: Seq<(String, String)>,
    active: Seq<String>,
) -> Result<Option<(Seq<char>, Seq<Token>)>, Seq<char>> {
    let activated = match spec_cfg_target_activate(options.allow_doc, t, item, store) {
        Ok(o) => Ok(Some(o)),
        Err(k) => Err(k),
    };
    match options.always_this {
        Some(act) => if act {
            activated
        } else {
            Ok(None)
        },
        None => if options.allow_doc {
            activated
        } else {
            match spec_eval(t, store, active) {
                Err(k) => Err(k),
                Ok(true) => activated,
                Ok(false) => Ok(None),
            }
        },
    }
}

/// Generate the output of the attribute-style entry for one item: the
/// item when its condition holds (or is overridden to true), nothing
/// when it does not.  See `spec_cfg_target_content`.
pub fn generate_cfg_target_content(
    options: &TargetAttributeOption,
    syntax_tree: &SyntaxTreeNode,
    item: Vec<Token>,
    store: &Vec<(String, String)>,
    active: &Vec<String>,
) -> (r: Result<Option<BranchOutput>, CfgBoostError>)
    ensures
        ({
            let content = spec_cfg_target_content(*options, syntax_tree@, item@, store@, active@);
            match r {
                Ok(out) => match out {
                    Some(o) => content == Ok::<Option<(Seq<char>, Seq<Token>)>, Seq<char>>(
                        Some((o.attr_ts@, o.content@)),
                    ),
                    None => content == Ok::<Option<(Seq<char>, Seq<Token>)>, Seq<char>>(None),
                },
                Err(e) => content matches Err(k) && e@ == ErrorView::InvalidConfigurationPredicate(
                    k,
                ),
            }
        }),
{
    match options.always_this {
        Some(is_activated) => {
            if is_activated {
                match cfg_target_activate(options, syntax_tree, item, store) {
                    Ok(o) => Ok(Some(o)),
                    Err(e) => Err(e),
                }
            } else {
                Ok(None)
            }
        },
        None => {
            let selected = if options.allow_doc {
                true
            } else {
                match syntax_tree.evaluate(store, active) {
                    Ok(b) => b,
                    Err(e) => {
                        return Err(e);
                    },
                }
            };
            if selected {
                match cfg_target_activate(options, syntax_tree, item, store) {
                    Ok(o) => Ok(Some(o)),
                    Err(e) => Err(e),
                }
            } else {
                Ok(None)
            }
        },
    }
}

/// Decorate an activated item with the documentation attribute header
/// when documentation is allowed.
pub fn cfg_target_activate(
    options: &TargetAttributeOption,
    syntax_tree: &SyntaxTreeNode,
    item: Vec<Token>,
    store: &Vec<(String, String)>,
) -> (r: Result<BranchOutput, CfgBoostError>)
    ensures
        match r {
            Ok(out) => spec_cfg_target_activate(options.allow_doc, syntax_tree@, item@, store@)
                == Ok::<(Seq<char>, Seq<Token>), Seq<char>>((out.attr_ts@, out.content@)),
            Err(e) => spec_cfg_target_activate(options.allow_doc, syntax_tree@, item@, store@)
                matches Err(k) && e@ == ErrorView::InvalidConfigurationPredicate(k),
        },
{
    if options.allow_doc {
        let rendered = match syntax_tree.to_text(store) {
            Ok(s) => s,
            Err(e) => {
                return Err(e);
            },
        };
        let mut attr_ts = String::from_str("#[cfg_attr(docsrs, doc(cfg(");
        attr_ts.append(rendered.as_str());
        attr_ts.append(")))]");
        Ok(BranchOutput { attr_ts, content: item })
    } else {
        Ok(BranchOutput { attr_ts: String::new(), content: item })
    }
}

} // verus!
