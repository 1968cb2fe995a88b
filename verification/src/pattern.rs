//! Attribute–item group pairing.
use vstd::prelude::*;

use crate::tokens::Token;

verus! {

/// Mathematical model of one attribute–item pair.
#[verifier::ext_equal]
pub struct GroupView {
    /// Attribute tokens.
    pub attr: Seq<Token>,
    /// Item tokens.
    pub item: Seq<Token>,
}

/// One attribute–item pair of macro input.
#[derive(Debug, PartialEq, Eq)]
pub struct TargetGroup {
    /// Attribute tokens.
    pub attr: Vec<Token>,
    /// Item tokens.
    pub item: Vec<Token>,
}

impl View for TargetGroup {
    type V = GroupView;

    open spec fn view(&self) -> GroupView {
        GroupView { attr: self.attr@, item: self.item@ }
    }
}

/// The views of a sequence of groups.
pub open spec fn spec_groups(tg: Seq<TargetGroup>) -> Seq<GroupView> {
    tg.map_values(|g: TargetGroup| g@)
}

/// State of the group pairing scan.
#[verifier::ext_equal]
pub struct GroupScanState {
    /// Pairs closed so far.
    pub groups: Seq<GroupView>,
    /// Attribute tokens of the pair being built.
    pub attr: Seq<Token>,
    /// True while the next group token holds attributes.
    pub is_block_attr: bool,
}

/// One step of the group pairing scan: group tokens alternate between
/// attributes and items; other tokens are passed over.
pub open spec fn spec_group_step(st: GroupScanState, t: Token) -> GroupScanState {
    match t {
        Token::Group(_, v) => {
            if st.is_block_attr {
                GroupScanState { attr: v@, is_block_attr: false, ..st }
            } else {
                GroupScanState {
                    groups: st.groups.push(GroupView { attr: st.attr, item: v@ }),
                    attr: Seq::empty(),
                    is_block_attr: true,
                }
            }
        },
        _ => st,
    }
}

/// The group pairing scan over the first `i` tokens.
pub open spec fn spec_group_scan(tokens: Seq<Token>, i: int) -> GroupScanState
    decreases i,
{
    if i <= 0 {
        GroupScanState { groups: Seq::empty(), attr: Seq::empty(), is_block_attr: true }
    } else {
        spec_group_step(spec_group_scan(tokens, i - 1), tokens[i - 1])
    }
}

impl TargetGroup {
    /// Create a new pair from attribute and item tokens.
    pub fn new(attr: Vec<Token>, item: Vec<Token>) -> (r: TargetGroup)
        ensures
            r@ == (GroupView { attr: attr@, item: item@ }),
    {
        TargetGroup { attr, item }
    }

    /// Extract attribute–item pairs from macro input; see
    /// `spec_group_scan`.
    pub fn extract(source: Vec<Token>) -> (r: Vec<TargetGroup>)
        ensures
            spec_groups(r@) == spec_group_scan(source@, source@.len() as int).groups,
    {
        let ghost orig = source@;
        let mut source = source;
        let mut tg: Vec<TargetGroup> = Vec::new();
        let mut attr: Vec<Token> = Vec::new();
        let mut is_block_attr = true;
        let ghost mut p: int = 0;
        proof {
            assert(source@ =~= orig.skip(0));
            assert(spec_groups(tg@) =~= Seq::<GroupView>::empty());
        }
        #[verifier::loop_isolation(false)]
        while source.len() > 0
            invariant
                0 <= p <= orig.len(),
                source@ == orig.skip(p),
                spec_group_scan(orig, p) == (GroupScanState {
                    groups: spec_groups(tg@),
                    attr: attr@,
                    is_block_attr,
                }),
            decreases source@.len(),
        {
            proof {
                assert(orig.skip(p)[0] == orig[p]);
            }
            let t = source.remove(0);
            proof {
                assert(source@ =~= orig.skip(p + 1));
            }
            match t {
                Token::Group(_, v) => {
                    if is_block_attr {
                        attr = v;
                        is_block_attr = false;
                    } else {
                        let ghost tg_pre = tg@;
                        let done_attr = attr;
                        attr = Vec::new();
                        tg.push(TargetGroup { attr: done_attr, item: v });
                        is_block_attr = true;
                        proof {
                            assert(spec_groups(tg@) =~= spec_groups(tg_pre).push(
                                tg@[tg@.len() - 1]@,
                            ));
                        }
                    }
                },
                _ => {},
            }
            proof {
                p = p + 1;
                assert(spec_group_scan(orig, p) =~= (GroupScanState {
                    groups: spec_groups(tg@),
                    attr: attr@,
                    is_block_attr,
                }));
            }
        }
        proof {
            assert(orig.skip(p).len() == 0);
            assert(p == orig.len());
        }
        tg
    }
}

} // verus!
