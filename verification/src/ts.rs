//! Token-stream level helpers: item splitting, the cumulative
//! exclusivity tree, and attribute generation.
use vstd::prelude::*;
use vstd::string::StrSliceExecFns;
use vstd::string::StringExecFns;

use crate::arm::TargetArm;
use crate::arm::TargetArmType;
use crate::errors::CfgBoostError;
use crate::errors::ErrorView;
use crate::syntax::NodeView;
use crate::syntax::SyntaxTreeNode;
use crate::syntax::spec_eval;
use crate::syntax::spec_generate;
use crate::errors::ErrorView as EV;
use crate::syntax::spec_render;
use crate::text::spec_contains;
use crate::text::contains_str;
use crate::tokens::Delimiter;
use crate::tokens::Token;
use crate::tokens::spec_tokens_text;
use crate::tokens::tokens_text;

verus! {

/// State of the item splitting scan.
#[verifier::ext_equal]
pub struct ItemScanState {
    /// Items closed so far.
    pub items: Seq<Seq<Token>>,
    /// Tokens of the item being collected.
    pub item: Seq<Token>,
}

/// One step of the item splitting scan: an item ends at a `;` or at a
/// brace-delimited group.
pub open spec fn spec_item_step(st: ItemScanState, t: Token) -> ItemScanState {
    let closes = match t {
        Token::Group(d, _) => d == Delimiter::Brace,
        Token::Punct(c) => c == ';',
        _ => false,
    };
    if closes {
        ItemScanState { items: st.items.push(st.item.push(t)), item: Seq::empty() }
    } else {
        ItemScanState { items: st.items, item: st.item.push(t) }
    }
}

/// The item splitting scan over the first `i` tokens.
pub open spec fn spec_item_scan(tokens: Seq<Token>, i: int) -> ItemScanState
    decreases i,
{
    if i <= 0 {
        ItemScanState { items: Seq::empty(), item: Seq::empty() }
    } else {
        spec_item_step(spec_item_scan(tokens, i - 1), tokens[i - 1])
    }
}

/// The views of a sequence of token vectors.
pub open spec fn spec_items(items: Seq<Vec<Token>>) -> Seq<Seq<Token>> {
    items.map_values(|v: Vec<Token>| v@)
}

/// Split a token stream into items: an item is all tokens up to and
/// including a `;` or a brace-delimited group.  Trailing tokens that
/// close no item are dropped.
pub fn split_items(stream: Vec<Token>) -> (r: Vec<Vec<Token>>)
    ensures
        spec_items(r@) == spec_item_scan(stream@, stream@.len() as int).items,
{
    let ghost orig = stream@;
    let mut stream = stream;
    let mut items: Vec<Vec<Token>> = Vec::new();
    let mut item: Vec<Token> = Vec::new();
    let ghost mut p: int = 0;
    proof {
        assert(stream@ =~= orig.skip(0));
        assert(spec_items(items@) =~= Seq::<Seq<Token>>::empty());
    }
    #[verifier::loop_isolation(false)]
    while stream.len() > 0
        invariant
            0 <= p <= orig.len(),
            stream@ == orig.skip(p),
            spec_item_scan(orig, p) == (ItemScanState {
                items: spec_items(items@),
                item: item@,
            }),
        decreases stream@.len(),
    {
        proof {
            assert(orig.skip(p)[0] == orig[p]);
        }
        let t = stream.remove(0);
        proof {
            assert(stream@ =~= orig.skip(p + 1));
        }
        let closes = match &t {
            Token::Group(d, _) => *d == Delimiter::Brace,
            Token::Punct(c) => *c == ';',
            _ => false,
        };
        item.push(t);
        if closes {
            let ghost items_pre = items@;
            let done = item;
            item = Vec::new();
            items.push(done);
            proof {
                assert(spec_items(items@) =~= spec_items(items_pre).push(
                    items@[items@.len() - 1]@,
                ));
            }
        }
        proof {
            p = p + 1;
            assert(spec_item_scan(orig, p) =~= (ItemScanState {
                items: spec_items(items@),
                item: item@,
            }));
        }
    }
    proof {
        assert(orig.skip(p).len() == 0);
        assert(p == orig.len());
    }
    items
}

/// Fold one more arm's tree into the cumulative tree.
///
/// The cumulative tree starts empty; each new arm combines as
/// `ALL(ALL(previous_left, NOT(previous_right)), current)`: the
/// negation of every prior arm ANDed with the current one.
pub open spec fn spec_cumulate(cumul: NodeView, tree: NodeView) -> NodeView {
    match cumul {
        NodeView::Empty => NodeView::All(Box::new(NodeView::Empty), Box::new(tree)),
        NodeView::All(l, r) => NodeView::All(
            Box::new(NodeView::All(l, Box::new(NodeView::Not(r)))),
            Box::new(tree),
        ),
        _ => cumul,
    }
}

/// Fold one more arm's tree into the cumulative tree; see `spec_cumulate`.
pub fn cumulate(cumul: SyntaxTreeNode, tree: SyntaxTreeNode) -> (r: SyntaxTreeNode)
    ensures
        r@ == spec_cumulate(cumul@, tree@),
{
    match cumul {
        SyntaxTreeNode::Empty => {
            let out = SyntaxTreeNode::All(Box::new(SyntaxTreeNode::Empty), Box::new(tree));
            proof {
                assert(crate::syntax::spec_node_view(SyntaxTreeNode::Empty) == NodeView::Empty);
            }
            out
        },
        SyntaxTreeNode::All(l, r) => {
            let ghost lv = crate::syntax::spec_node_view(*l);
            let ghost rv = crate::syntax::spec_node_view(*r);
            let inner_not = SyntaxTreeNode::Not(r);
            proof {
                assert(crate::syntax::spec_node_view(inner_not) == NodeView::Not(Box::new(rv)));
            }
            let inner_all = SyntaxTreeNode::All(l, Box::new(inner_not));
            proof {
                assert(crate::syntax::spec_node_view(inner_all) == NodeView::All(
                    Box::new(lv),
                    Box::new(NodeView::Not(Box::new(rv))),
                ));
            }
            let out = SyntaxTreeNode::All(Box::new(inner_all), Box::new(tree));
            out
        },
        other => other,
    }
}

/// Given arm trees `t1`, `t2` and a final wildcard in match mode: the
/// second arm's cumulative directive evaluates as `t2 AND NOT t1`,
/// and the wildcard's as `NOT t1 AND NOT t2`, whenever both arms
/// evaluate.
pub proof fn lemma_cumulative_exclusivity(
    t1: NodeView,
    t2: NodeView,
    store: Seq<(String, String)>,
    active: Seq<String>,
)
    ensures
        ({
            let c1 = spec_cumulate(NodeView::Empty, t1);
            let c2 = spec_cumulate(c1, t2);
            let c3 = spec_cumulate(c2, NodeView::Fixed(true));
            spec_eval(t1, store, active) matches Ok(a) ==> spec_eval(t2, store, active) matches Ok(
                b,
            ) ==> {
                &&& spec_eval(c2, store, active) == Ok::<bool, Seq<char>>(b && !a)
                &&& spec_eval(c3, store, active) == Ok::<bool, Seq<char>>(!a && !b)
            }
        }),
{
    let c1 = spec_cumulate(NodeView::Empty, t1);
    let c2 = spec_cumulate(c1, t2);
    let c3 = spec_cumulate(c2, NodeView::Fixed(true));
    match spec_eval(t1, store, active) {
        Ok(a) => match spec_eval(t2, store, active) {
            Ok(b) => {
                assert(spec_eval(NodeView::Empty, store, active) == Ok::<bool, Seq<char>>(true));
                assert(spec_eval(NodeView::Not(Box::new(t1)), store, active) == Ok::<
                    bool,
                    Seq<char>,
                >(!a));
                assert(c1 == NodeView::All(Box::new(NodeView::Empty), Box::new(t1)));
                assert(spec_eval(c1, store, active) == Ok::<bool, Seq<char>>(a));
                let c2l = NodeView::All(Box::new(NodeView::Empty), Box::new(NodeView::Not(Box::new(t1))));
                assert(c2 == NodeView::All(Box::new(c2l), Box::new(t2)));
                assert(spec_eval(c2l, store, active) == Ok::<bool, Seq<char>>(!a));
                assert(spec_eval(c2, store, active) == Ok::<bool, Seq<char>>(b && !a));
                let c3l = NodeView::All(Box::new(c2l), Box::new(NodeView::Not(Box::new(t2))));
                assert(c3 == NodeView::All(Box::new(c3l), Box::new(NodeView::Fixed(true))));
                assert(spec_eval(NodeView::Not(Box::new(t2)), store, active) == Ok::<
                    bool,
                    Seq<char>,
                >(!b));
                assert(spec_eval(c3l, store, active) == Ok::<bool, Seq<char>>(!a && !b));
                assert(spec_eval(NodeView::Fixed(true), store, active) == Ok::<bool, Seq<char>>(
                    true,
                ));
                assert(spec_eval(c3, store, active) == Ok::<bool, Seq<char>>(!a && !b));
            },
            Err(_) => {},
        },
        Err(_) => {},
    }
}

impl TargetArm {
    /// Generate a syntax tree for this arm: a wildcard arm is always
    /// true; any other arm parses its predicate source, which must not
    /// be empty.
    pub fn generate_syntax_tree(&self, store: &Vec<(String, String)>) -> (r: Result<
        SyntaxTreeNode,
        CfgBoostError,
    >)
        requires
            store@.len() + 13 <= usize::MAX,
        ensures
            match r {
                Ok(t) => self@.arm_type == TargetArmType::Wildcard && t@ == NodeView::Fixed(true)
                    || self@.arm_type != TargetArmType::Wildcard && self@.arm_ts.len() > 0
                    && spec_generate(
                    spec_tokens_text(self@.arm_ts),
                    store@,
                    Seq::empty(),
                    (store@.len() + 13) as nat,
                ) == Ok::<NodeView, ErrorView>(t@),
                Err(e) => self@.arm_type != TargetArmType::Wildcard && (self@.arm_ts.len() == 0
                    && e@ == ErrorView::EmptyArm || self@.arm_ts.len() > 0 && spec_generate(
                    spec_tokens_text(self@.arm_ts),
                    store@,
                    Seq::empty(),
                    (store@.len() + 13) as nat,
                ) == Err::<NodeView, ErrorView>(e@)),
            },
    {
        match self.arm_type {
            TargetArmType::Wildcard => Ok(SyntaxTreeNode::Fixed(true)),
            _ => {
                if self.arm_ts.len() == 0 {
                    return Err(CfgBoostError::EmptyArm);
                }
                let text = tokens_text(&self.arm_ts);
                SyntaxTreeNode::generate(text.as_str(), store)
            },
        }
    }
}

/// True when some top-level token of `attr` is the identifier `doc`.
pub open spec fn spec_attr_has_doc(attr: Seq<Token>) -> bool {
    exists|i: int|
        0 <= i < attr.len() && ((#[trigger] attr[i]) matches Token::Ident(x) && x@ == "doc"@)
}

/// Add the default `doc |` prefix to attribute tokens when `doc` is
/// not already among them, so that documentation builds keep every
/// arm.
pub fn set_attr_doc(attr: Vec<Token>) -> (r: Vec<Token>)
    ensures
        spec_attr_has_doc(attr@) ==> r@ == attr@,
        !spec_attr_has_doc(attr@) ==> {
            &&& r@.len() == 3
            &&& (r@[0] matches Token::Ident(x) && x@ == "doc"@)
            &&& r@[1] == Token::Punct('|')
            &&& (r@[2] matches Token::Group(d, v) && d == Delimiter::Parenthesis && v@ == attr@)
        },
{
    let n = attr.len();
    let mut i: usize = 0;
    while i < n
        invariant
            n == attr@.len(),
            i <= n,
            forall|j: int|
                0 <= j < i ==> !((#[trigger] attr@[j]) matches Token::Ident(x) && x@ == "doc"@),
        decreases n - i,
    {
        match &attr[i] {
            Token::Ident(x) => {
                if crate::text::str_eq(x.as_str(), "doc") {
                    proof {
                        assert(spec_attr_has_doc(attr@));
                    }
                    return attr;
                }
            },
            _ => {},
        }
        i = i + 1;
    }
    let mut r: Vec<Token> = Vec::new();
    r.push(Token::Ident(String::from_str("doc")));
    r.push(Token::Punct('|'));
    r.push(Token::Group(Delimiter::Parenthesis, attr));
    r
}

/// True when the item carries the `#[doc(hidden)]` tag.
pub fn is_item_hidden(item: &Vec<Token>) -> (r: bool)
    ensures
        r == spec_contains(spec_tokens_text(item@), "#[doc(hidden)]"@),
{
    let text = tokens_text(item);
    contains_str(text.as_str(), "#[doc(hidden)]")
}

/// The predicate text of attribute tokens after the default `doc |`
/// wrap: unchanged when `doc` is already among them, else the whole
/// attribute grouped under a `doc` alternative.
pub open spec fn spec_attr_doc_text(attr: Seq<Token>) -> Seq<char> {
    if spec_attr_has_doc(attr) {
        spec_tokens_text(attr)
    } else {
        "doc|("@ + spec_tokens_text(attr) + ")"@
    }
}

/// Generate the output of the attribute-style entry: the item under
/// its `#[cfg]` directive, with a documentation attribute when
/// documentation attributes are on and the item is not hidden.
pub fn generate_attr_content(
    attr: Vec<Token>,
    item: Vec<Token>,
    alias_store: &Vec<(String, String)>,
    predicate_store: &Vec<(String, String)>,
    docsrs: bool,
) -> (r: Result<crate::ArmOutput, CfgBoostError>)
    requires
        alias_store@.len() + 13 <= usize::MAX,
    ensures
        ({
            let fuel = (alias_store@.len() + 13) as nat;
            let built = spec_generate(spec_attr_doc_text(attr@), alias_store@, Seq::empty(), fuel);
            match r {
                Ok(out) => match built {
                    Ok(t) => match spec_render(t, predicate_store@) {
                        Ok(s) => {
                            &&& out.cfg_ts@ == "#[cfg("@ + s + ")]"@
                            &&& out.content@ == item@
                            &&& out.attr_ts@ == if docsrs && !spec_contains(
                                spec_tokens_text(item@),
                                "#[doc(hidden)]"@,
                            ) {
                                "#[cfg_attr(docsrs, doc(cfg("@ + s + ")))]"@
                            } else {
                                Seq::<char>::empty()
                            }
                        },
                        Err(_) => false,
                    },
                    Err(_) => false,
                },
                Err(e) => match built {
                    Err(e2) => e@ == e2,
                    Ok(t) => spec_render(t, predicate_store@) matches Err(k) && e@
                        == EV::InvalidConfigurationPredicate(k),
                },
            }
        }),
{
    let ghost attr0 = attr@;
    let wrapped = set_attr_doc(attr);
    let text = tokens_text(&wrapped);
    proof {
        if !spec_attr_has_doc(attr0) {
            reveal_strlit("|");
            reveal_strlit("(");
            reveal_strlit(")");
            reveal_strlit("doc");
            reveal_strlit("doc|(");
            reveal_strlit("|(");
            let w = wrapped@;
            assert(w.len() == 3);
            assert(crate::tokens::spec_tokens_text_from(w, 3) =~= Seq::<char>::empty());
            assert(crate::tokens::spec_token_text(w[2]) =~= "("@ + spec_tokens_text(attr0)
                + ")"@);
            assert(crate::tokens::spec_tokens_text_from(w, 2) =~= "("@ + spec_tokens_text(attr0)
                + ")"@);
            assert(crate::tokens::spec_token_text(w[1]) =~= "|"@);
            assert(crate::tokens::spec_tokens_text_from(w, 1) =~= "|("@ + spec_tokens_text(attr0)
                + ")"@);
            assert(crate::tokens::spec_token_text(w[0]) =~= "doc"@);
            assert(!crate::tokens::spec_wordy(w[1]));
            assert(crate::tokens::spec_tokens_text_from(w, 0) =~= "doc|("@ + spec_tokens_text(
                attr0,
            ) + ")"@);
        }
        assert(text@ =~= spec_attr_doc_text(attr0));
    }
    let tree = match SyntaxTreeNode::generate(text.as_str(), alias_store) {
        Ok(t) => t,
        Err(e) => {
            return Err(e);
        },
    };
    let rendered = match tree.to_text(predicate_store) {
        Ok(s) => s,
        Err(e) => {
            return Err(e);
        },
    };
    let mut cfg_ts = String::from_str("#[cfg(");
    cfg_ts.append(rendered.as_str());
    cfg_ts.append(")]");
    let attr_ts = if docsrs && !is_item_hidden(&item) {
        let mut a = String::from_str("#[cfg_attr(docsrs, doc(cfg(");
        a.append(rendered.as_str());
        a.append(")))]");
        a
    } else {
        String::new()
    };
    Ok(crate::ArmOutput { cfg_ts, attr_ts, content: item })
}

} // verus!
