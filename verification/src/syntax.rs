//! Predicate syntax tree: building, rendering and evaluating.
//!
//! A predicate is parsed from its source text by a recursive descent:
//! one leading negation is stripped, then the text is scanned right to
//! left under a signed nesting depth for the top-level `&` or `|` to
//! split at.  A split-free text is a leaf (`label:key`), one enclosing
//! group to unwrap, or a bare alias to expand through the dictionary.
use vstd::prelude::*;
use vstd::string::StrSliceExecFns;
use vstd::string::StringExecFns;

use crate::config::get_cfg_boost_alias;
use crate::config::get_cfg_boost_predicate;
use crate::config::spec_alias_lookup;
use crate::config::spec_predicate_result;
use crate::errors::CfgBoostError;
use crate::errors::ErrorView;
use crate::text::char_to_string;
use crate::text::contains_str;
use crate::text::find_char;
use crate::text::lemma_find_char;
use crate::text::spec_contains;
use crate::text::spec_find_char;
use crate::text::spec_trim;
use crate::text::str_eq;
use crate::text::trim_str;

verus! {

/// Negation symbol.
pub const NEGATIVE_SYMBOL: char = '!';

/// Symbol for AND.
pub const AND_SYMBOL: char = '&';

/// Symbol for OR.
pub const OR_SYMBOL: char = '|';

/// Mathematical model of a predicate tree, over character sequences.
pub enum NodeView {
    /// Negation of the child.
    Not(Box<NodeView>),
    /// OR of the two children.
    Any(Box<NodeView>, Box<NodeView>),
    /// AND of the two children.
    All(Box<NodeView>, Box<NodeView>),
    /// Terminal predicate reference, as `label:key` text.
    Leaf(Seq<char>),
    /// Precomputed boolean outcome; carries no predicate.
    Fixed(bool),
    /// Empty node: the start value of a cumulative tree.
    Empty,
}

/// Node of a predicate syntax tree.
///
/// `Fixed` holds a precomputed boolean (used for arms whose outcome is
/// decided by a modifier or by the arms before them); `Empty` is the
/// start value of a cumulative tree and is true everywhere.
#[derive(Debug, PartialEq, Eq)]
pub enum SyntaxTreeNode {
    /// Negation of the child.
    Not(Box<SyntaxTreeNode>),
    /// OR of the two children.
    Any(Box<SyntaxTreeNode>, Box<SyntaxTreeNode>),
    /// AND of the two children.
    All(Box<SyntaxTreeNode>, Box<SyntaxTreeNode>),
    /// Terminal predicate reference, as `label:key` text.
    Leaf(String),
    /// Precomputed boolean outcome; carries no predicate.
    Fixed(bool),
    /// Empty node: the start value of a cumulative tree.
    Empty,
}

/// Mathematical model of a tree node.
pub open spec fn spec_node_view(t: SyntaxTreeNode) -> NodeView
    decreases t,
{
    match t {
        SyntaxTreeNode::Not(c) => NodeView::Not(Box::new(spec_node_view(*c))),
        SyntaxTreeNode::Any(l, r) => NodeView::Any(
            Box::new(spec_node_view(*l)),
            Box::new(spec_node_view(*r)),
        ),
        SyntaxTreeNode::All(l, r) => NodeView::All(
            Box::new(spec_node_view(*l)),
            Box::new(spec_node_view(*r)),
        ),
        SyntaxTreeNode::Leaf(s) => NodeView::Leaf(s@),
        SyntaxTreeNode::Fixed(b) => NodeView::Fixed(b),
        SyntaxTreeNode::Empty => NodeView::Empty,
    }
}

impl View for SyntaxTreeNode {
    type V = NodeView;

    open spec fn view(&self) -> NodeView {
        spec_node_view(*self)
    }
}

impl SyntaxTreeNode {
    /// Create a NOT node over `child`.
    pub fn not_node(child: SyntaxTreeNode) -> (r: SyntaxTreeNode)
        ensures
            r@ == NodeView::Not(Box::new(child@)),
    {
        SyntaxTreeNode::Not(Box::new(child))
    }

    /// Create an ALL (AND) node over `left` and `right`.
    pub fn all_node(left: SyntaxTreeNode, right: SyntaxTreeNode) -> (r: SyntaxTreeNode)
        ensures
            r@ == NodeView::All(Box::new(left@), Box::new(right@)),
    {
        SyntaxTreeNode::All(Box::new(left), Box::new(right))
    }

    /// Create an ANY (OR) node over `left` and `right`.
    pub fn any_node(left: SyntaxTreeNode, right: SyntaxTreeNode) -> (r: SyntaxTreeNode)
        ensures
            r@ == NodeView::Any(Box::new(left@), Box::new(right@)),
    {
        SyntaxTreeNode::Any(Box::new(left), Box::new(right))
    }
}

/// What rendering a tree produces: the canonical directive text, or
/// the unmatched predicate key of the leftmost failing leaf.
pub open spec fn spec_render(t: NodeView, store: Seq<(String, String)>) -> Result<
    Seq<char>,
    Seq<char>,
>
    decreases t,
{
    match t {
        NodeView::Not(c) => match spec_render(*c, store) {
            Ok(s) => Ok("not("@ + s + ")"@),
            Err(e) => Err(e),
        },
        NodeView::Any(l, r) => match (spec_render(*l, store), spec_render(*r, store)) {
            (Ok(a), Ok(b)) => Ok("any("@ + a + ", "@ + b + ")"@),
            (Err(e), _) => Err(e),
            (_, Err(e)) => Err(e),
        },
        NodeView::All(l, r) => match (spec_render(*l, store), spec_render(*r, store)) {
            (Ok(a), Ok(b)) => Ok("all("@ + a + ", "@ + b + ")"@),
            (Err(e), _) => Err(e),
            (_, Err(e)) => Err(e),
        },
        NodeView::Leaf(label) => spec_predicate_result(label, store),
        NodeView::Fixed(b) => if b {
            Ok("all()"@)
        } else {
            Ok("any()"@)
        },
        NodeView::Empty => Ok("all()"@),
    }
}

/// True when some active configuration entry contains `rendered`.
pub open spec fn spec_is_active(active: Seq<String>, rendered: Seq<char>) -> bool {
    exists|i: int| 0 <= i < active.len() && spec_contains(#[trigger] active[i]@, rendered)
}

/// What evaluating a tree produces: its truth value under the active
/// configuration, or the unmatched key of the leftmost failing leaf.
pub open spec fn spec_eval(t: NodeView, store: Seq<(String, String)>, active: Seq<String>) -> Result<
    bool,
    Seq<char>,
>
    decreases t,
{
    match t {
        NodeView::Not(c) => match spec_eval(*c, store, active) {
            Ok(b) => Ok(!b),
            Err(e) => Err(e),
        },
        NodeView::Any(l, r) => match (spec_eval(*l, store, active), spec_eval(*r, store, active)) {
            (Ok(a), Ok(b)) => Ok(a || b),
            (Err(e), _) => Err(e),
            (_, Err(e)) => Err(e),
        },
        NodeView::All(l, r) => match (spec_eval(*l, store, active), spec_eval(*r, store, active)) {
            (Ok(a), Ok(b)) => Ok(a && b),
            (Err(e), _) => Err(e),
            (_, Err(e)) => Err(e),
        },
        NodeView::Leaf(label) => match spec_predicate_result(label, store) {
            Ok(rendered) => Ok(spec_is_active(active, rendered)),
            Err(k) => Err(k),
        },
        NodeView::Fixed(b) => Ok(b),
        NodeView::Empty => Ok(true),
    }
}

/// The evaluation of a NOT node is the negation of its child's:
/// whenever the child evaluates, `NOT` evaluates to the opposite, and
/// both fail on the same unmatched keys.
pub proof fn lemma_eval_not(n: NodeView, store: Seq<(String, String)>, active: Seq<String>)
    ensures
        spec_eval(NodeView::Not(Box::new(n)), store, active) == match spec_eval(n, store, active) {
            Ok(b) => Ok::<bool, Seq<char>>(!b),
            Err(e) => Err::<bool, Seq<char>>(e),
        },
{
}

/// True when some active configuration entry contains `rendered`.
pub fn text_is_active(active: &Vec<String>, rendered: &str) -> (r: bool)
    ensures
        r == spec_is_active(active@, rendered@),
{
    let n = active.len();
    let mut i: usize = 0;
    while i < n
        invariant
            n == active@.len(),
            i <= n,
            forall|j: int| 0 <= j < i ==> !spec_contains(#[trigger] active@[j]@, rendered@),
        decreases n - i,
    {
        if contains_str(active[i].as_str(), rendered) {
            return true;
        }
        i = i + 1;
    }
    false
}

impl SyntaxTreeNode {
    /// Write the node as canonical directive text, resolving each
    /// leaf's predicate key through the dictionary.
    ///
    /// Returns `CfgBoostError::InvalidConfigurationPredicate` for the
    /// leftmost leaf whose key the dictionary does not know.
    pub fn to_text(&self, store: &Vec<(String, String)>) -> (r: Result<String, CfgBoostError>)
        ensures
            match r {
                Ok(s) => spec_render(self@, store@) == Ok::<Seq<char>, Seq<char>>(s@),
                Err(e) => spec_render(self@, store@) matches Err(k) && e@
                    == ErrorView::InvalidConfigurationPredicate(k),
            },
        decreases *self,
    {
        match self {
            SyntaxTreeNode::Not(c) => match c.to_text(store) {
                Ok(s) => {
                    let mut out = String::from_str("not(");
                    out.append(s.as_str());
                    out.append(")");
                    Ok(out)
                },
                Err(e) => Err(e),
            },
            SyntaxTreeNode::Any(l, r) => match l.to_text(store) {
                Ok(a) => match r.to_text(store) {
                    Ok(b) => {
                        let mut out = String::from_str("any(");
                        out.append(a.as_str());
                        out.append(", ");
                        out.append(b.as_str());
                        out.append(")");
                        Ok(out)
                    },
                    Err(e) => Err(e),
                },
                Err(e) => Err(e),
            },
            SyntaxTreeNode::All(l, r) => match l.to_text(store) {
                Ok(a) => match r.to_text(store) {
                    Ok(b) => {
                        let mut out = String::from_str("all(");
                        out.append(a.as_str());
                        out.append(", ");
                        out.append(b.as_str());
                        out.append(")");
                        Ok(out)
                    },
                    Err(e) => Err(e),
                },
                Err(e) => Err(e),
            },
            SyntaxTreeNode::Leaf(label) => get_cfg_boost_predicate(label.as_str(), store),
            SyntaxTreeNode::Fixed(b) => Ok(
                String::from_str(
                    if *b {
                        "all()"
                    } else {
                        "any()"
                    },
                ),
            ),
            SyntaxTreeNode::Empty => Ok(String::from_str("all()")),
        }
    }

    /// Evaluate the node against the active build configuration,
    /// resolving each leaf through the dictionary and matching the
    /// rendered predicate against the active entries.
    ///
    /// Returns `CfgBoostError::InvalidConfigurationPredicate` for the
    /// leftmost leaf whose key the dictionary does not know.
    pub fn evaluate(&self, store: &Vec<(String, String)>, active: &Vec<String>) -> (r: Result<
        bool,
        CfgBoostError,
    >)
        ensures
            match r {
                Ok(b) => spec_eval(self@, store@, active@) == Ok::<bool, Seq<char>>(b),
                Err(e) => spec_eval(self@, store@, active@) matches Err(k) && e@
                    == ErrorView::InvalidConfigurationPredicate(k),
            },
        decreases *self,
    {
        match self {
            SyntaxTreeNode::Not(c) => match c.evaluate(store, active) {
                Ok(b) => Ok(!b),
                Err(e) => Err(e),
            },
            SyntaxTreeNode::Any(l, r) => match l.evaluate(store, active) {
                Ok(a) => match r.evaluate(store, active) {
                    Ok(b) => Ok(a || b),
                    Err(e) => Err(e),
                },
                Err(e) => Err(e),
            },
            SyntaxTreeNode::All(l, r) => match l.evaluate(store, active) {
                Ok(a) => match r.evaluate(store, active) {
                    Ok(b) => Ok(a && b),
                    Err(e) => Err(e),
                },
                Err(e) => Err(e),
            },
            SyntaxTreeNode::Leaf(label) => match get_cfg_boost_predicate(label.as_str(), store) {
                Ok(rendered) => Ok(text_is_active(active, rendered.as_str())),
                Err(e) => Err(e),
            },
            SyntaxTreeNode::Fixed(b) => Ok(*b),
            SyntaxTreeNode::Empty => Ok(true),
        }
    }
}

/// True when the two adjacent characters at `i` form a double operator.
pub open spec fn spec_double_op_at(s: Seq<char>, i: int) -> bool {
    &&& 0 <= i
    &&& i + 1 < s.len()
    &&& s[i] == s[i + 1]
    &&& (s[i] == AND_SYMBOL || s[i] == OR_SYMBOL || s[i] == NEGATIVE_SYMBOL)
}

/// True when the text contains `&&`, `||` or `!!` anywhere.
pub open spec fn spec_has_double_op(s: Seq<char>) -> bool {
    exists|i: int| spec_double_op_at(s, i)
}

/// Index of the first double operator in `s`, or `-1` if there is none.
pub open spec fn spec_find_double_op(s: Seq<char>) -> int
    decreases s.len(),
{
    if s.len() < 2 {
        -1
    } else if s[0] == s[1] && (s[0] == AND_SYMBOL || s[0] == OR_SYMBOL || s[0] == NEGATIVE_SYMBOL) {
        0
    } else if spec_find_double_op(s.drop_first()) == -1 {
        -1
    } else {
        1 + spec_find_double_op(s.drop_first())
    }
}

/// `spec_find_double_op` returns the first double operator, and `-1`
/// exactly when the text holds none.
pub proof fn lemma_find_double_op(s: Seq<char>)
    ensures
        spec_find_double_op(s) == -1 <==> !spec_has_double_op(s),
        spec_find_double_op(s) != -1 ==> {
            let r = spec_find_double_op(s);
            &&& spec_double_op_at(s, r)
            &&& forall|j: int| 0 <= j < r ==> !spec_double_op_at(s, j)
        },
    decreases s.len(),
{
    if s.len() < 2 {
        assert(forall|j: int| !spec_double_op_at(s, j));
    } else if s[0] == s[1] && (s[0] == AND_SYMBOL || s[0] == OR_SYMBOL || s[0]
        == NEGATIVE_SYMBOL) {
        assert(spec_double_op_at(s, 0));
    } else {
        let d = s.drop_first();
        lemma_find_double_op(d);
        assert(forall|j: int| 0 <= j < d.len() ==> d[j] == s[j + 1]);
        assert forall|j: int| spec_double_op_at(s, j) && j > 0 implies spec_double_op_at(
            d,
            j - 1,
        ) by {
            assert(d[j - 1] == s[j] && d[j] == s[j + 1]);
        }
        assert forall|j: int| spec_double_op_at(d, j) implies spec_double_op_at(s, j + 1) by {
            assert(d[j] == s[j + 1] && d[j + 1] == s[j + 2]);
        }
        if spec_find_double_op(d) == -1 {
            assert(!spec_has_double_op(s)) by {
                if spec_has_double_op(s) {
                    let j = choose|j: int| spec_double_op_at(s, j);
                    assert(j != 0);
                    assert(spec_double_op_at(d, j - 1));
                }
            }
        }
    }
}

/// Find the first double operator in `s`.
fn find_double_op(s: &str) -> (r: Option<usize>)
    ensures
        match r {
            Some(i) => i == spec_find_double_op(s@) && i + 1 < s@.len(),
            None => spec_find_double_op(s@) == -1,
        },
{
    proof {
        lemma_find_double_op(s@);
    }
    let n = s.unicode_len();
    if n < 2 {
        return None;
    }
    let mut i: usize = 0;
    while i + 1 < n
        invariant
            n == s@.len(),
            i + 1 <= n,
            forall|j: int| 0 <= j < i ==> !spec_double_op_at(s@, j),
        decreases n - i,
    {
        let c = s.get_char(i);
        if c == s.get_char(i + 1) && (c == AND_SYMBOL || c == OR_SYMBOL || c == NEGATIVE_SYMBOL) {
            proof {
                lemma_find_double_op(s@);
                assert(spec_double_op_at(s@, i as int));
                assert(spec_has_double_op(s@));
                let r = spec_find_double_op(s@);
                assert(r != -1);
                assert(spec_double_op_at(s@, r));
                assert(r == i);
            }
            return Some(i);
        }
        i = i + 1;
    }
    proof {
        assert(forall|j: int| spec_double_op_at(s@, j) ==> 0 <= j < n - 1);
    }
    None
}

/// True for the characters allowed in simplified predicate text:
/// letters, digits and a few structural marks; anything beyond the
/// common ASCII range is treated as word material, as identifiers may
/// carry it.
pub open spec fn spec_allowed_char(c: char) -> bool {
    ||| 'a' <= c <= 'z'
    ||| 'A' <= c <= 'Z'
    ||| '0' <= c <= '9'
    ||| c == '_'
    ||| c == '-'
    ||| c == ' '
    ||| c == ':'
    ||| c == '.'
    ||| c == '!'
    ||| c == '&'
    ||| c == '|'
    ||| c == '('
    ||| c == ')'
    ||| c > '\u{7f}'
}

/// True for characters that cannot appear in simplified predicate text.
pub open spec fn spec_invalid_char(c: char) -> bool {
    !spec_allowed_char(c)
}

/// Index of the first invalid character in `s`, or `-1` if there is none.
pub open spec fn spec_find_invalid(s: Seq<char>) -> int
    decreases s.len(),
{
    if s.len() == 0 {
        -1
    } else if spec_invalid_char(s[0]) {
        0
    } else if spec_find_invalid(s.drop_first()) == -1 {
        -1
    } else {
        1 + spec_find_invalid(s.drop_first())
    }
}

/// `spec_find_invalid` returns the first invalid character, and `-1`
/// exactly when every character is allowed.
pub proof fn lemma_find_invalid(s: Seq<char>)
    ensures
        spec_find_invalid(s) == -1 <==> (forall|j: int|
            0 <= j < s.len() ==> !spec_invalid_char(#[trigger] s[j])),
        spec_find_invalid(s) != -1 ==> {
            let r = spec_find_invalid(s);
            &&& 0 <= r < s.len()
            &&& spec_invalid_char(s[r])
            &&& forall|j: int| 0 <= j < r ==> !spec_invalid_char(#[trigger] s[j])
        },
    decreases s.len(),
{
    if s.len() > 0 && !spec_invalid_char(s[0]) {
        let d = s.drop_first();
        lemma_find_invalid(d);
        assert(forall|j: int| 0 <= j < d.len() ==> d[j] == s[j + 1]);
        if spec_find_invalid(d) == -1 {
            assert forall|j: int| 0 <= j < s.len() implies !spec_invalid_char(s[j]) by {
                if j > 0 {
                    assert(d[j - 1] == s[j]);
                }
            }
        } else {
            let r = spec_find_invalid(d);
            assert(s[1 + r] == d[r]);
            assert forall|j: int| 0 <= j < 1 + r implies !spec_invalid_char(s[j]) by {
                if j > 0 {
                    assert(d[j - 1] == s[j]);
                }
            }
        }
    }
}

/// True for characters that cannot appear in simplified predicate text.
fn is_invalid_char(c: char) -> (r: bool)
    ensures
        r == spec_invalid_char(c),
{
    let allowed = ('a' <= c && c <= 'z') || ('A' <= c && c <= 'Z') || ('0' <= c && c <= '9') || c
        == '_' || c == '-' || c == ' ' || c == ':' || c == '.' || c == '!' || c == '&' || c == '|'
        || c == '(' || c == ')' || c > '\u{7f}';
    !allowed
}

/// Find the first invalid character in `s`.
fn find_invalid(s: &str) -> (r: Option<usize>)
    ensures
        match r {
            Some(i) => i == spec_find_invalid(s@) && i < s@.len(),
            None => spec_find_invalid(s@) == -1,
        },
{
    proof {
        lemma_find_invalid(s@);
    }
    let n = s.unicode_len();
    let mut i: usize = 0;
    while i < n
        invariant
            n == s@.len(),
            i <= n,
            forall|j: int| 0 <= j < i ==> !spec_invalid_char(#[trigger] s@[j]),
        decreases n - i,
    {
        if is_invalid_char(s.get_char(i)) {
            proof {
                lemma_find_invalid(s@);
                let r = spec_find_invalid(s@);
                assert(r != -1);
                assert(spec_invalid_char(s@[r]));
                assert(r == i);
            }
            return Some(i);
        }
        i = i + 1;
    }
    None
}

/// Right-to-left scan for the top-level operator to split at.
///
/// `i` is the number of characters not yet examined; `depth` is the
/// signed nesting depth of the part already scanned.  The result is
/// the operator and its index, `None` when no top-level operator
/// exists, or the mismatched group character as an error.
pub open spec fn spec_scan_op(s: Seq<char>, i: int, depth: int) -> Result<
    Option<(char, int)>,
    Seq<char>,
>
    decreases i,
{
    if i <= 0 {
        if depth == 0 {
            Ok(None)
        } else {
            Err(")"@)
        }
    } else {
        let c = s[i - 1];
        if c == ')' {
            spec_scan_op(s, i - 1, depth + 1)
        } else if c == '(' {
            if depth == 0 {
                Err("("@)
            } else {
                spec_scan_op(s, i - 1, depth - 1)
            }
        } else if depth == 0 && (c == AND_SYMBOL || c == OR_SYMBOL) {
            Ok(Some((c, i - 1)))
        } else {
            spec_scan_op(s, i - 1, depth)
        }
    }
}

/// A successful scan yields an operator index below `i`.
pub proof fn lemma_scan_op_bounds(s: Seq<char>, i: int, depth: int)
    ensures
        spec_scan_op(s, i, depth) matches Ok(Some((c, p))) ==> 0 <= p < i && (c == AND_SYMBOL || c
            == OR_SYMBOL) && s[p] == c,
    decreases i,
{
    if i > 0 {
        lemma_scan_op_bounds(s, i - 1, depth + 1);
        lemma_scan_op_bounds(s, i - 1, depth - 1);
        lemma_scan_op_bounds(s, i - 1, depth);
    }
}

/// Scan `s` right to left for the top-level operator to split at.
fn scan_op(s: &str) -> (r: Result<Option<(char, usize)>, CfgBoostError>)
    ensures
        match r {
            Ok(Some((c, p))) => spec_scan_op(s@, s@.len() as int, 0) == Ok::<_, Seq<char>>(
                Some((c, p as int)),
            ) && p < s@.len(),
            Ok(None) => spec_scan_op(s@, s@.len() as int, 0) == Ok::<Option<(char, int)>, Seq<char>>(
                None,
            ),
            Err(e) => spec_scan_op(s@, s@.len() as int, 0) matches Err(t) && e@
                == ErrorView::InvalidCharacter(t),
        },
{
    let n = s.unicode_len();
    let mut i: usize = n;
    let mut depth: usize = 0;
    while i > 0
        invariant
            n == s@.len(),
            i <= n,
            spec_scan_op(s@, n as int, 0) == spec_scan_op(s@, i as int, depth as int),
            depth <= n - i,
        decreases i,
    {
        let c = s.get_char(i - 1);
        if c == ')' {
            depth = depth + 1;
        } else if c == '(' {
            if depth == 0 {
                return Err(CfgBoostError::InvalidCharacter(String::from_str("(")));
            }
            depth = depth - 1;
        } else if depth == 0 && (c == AND_SYMBOL || c == OR_SYMBOL) {
            return Ok(Some((c, i - 1)));
        }
        i = i - 1;
    }
    if depth == 0 {
        Ok(None)
    } else {
        Err(CfgBoostError::InvalidCharacter(String::from_str(")")))
    }
}

/// Signed nesting depth after the first `i` characters of `s`.
pub open spec fn spec_depth(s: Seq<char>, i: int) -> int
    decreases i,
{
    if i <= 0 {
        0
    } else {
        spec_depth(s, i - 1) + (if s[i - 1] == '(' {
            1int
        } else if s[i - 1] == ')' {
            -1int
        } else {
            0int
        })
    }
}

/// True when the whole text is one group: it starts with `(`, ends
/// with `)`, and the two match each other.
pub open spec fn spec_enclosed(s: Seq<char>) -> bool {
    &&& s.len() >= 2
    &&& s[0] == '('
    &&& s[s.len() - 1] == ')'
    &&& forall|i: int| 1 <= i < s.len() - 1 ==> spec_depth(s, i) >= 1
}

/// True when the whole text is one group.
fn is_enclosed(s: &str, n: usize) -> (r: bool)
    requires
        n == s@.len(),
    ensures
        r == spec_enclosed(s@),
{
    if n < 2 {
        return false;
    }
    if s.get_char(0) != '(' || s.get_char(n - 1) != ')' {
        return false;
    }
    proof {
        assert(spec_depth(s@, 0) == 0);
        assert(spec_depth(s@, 1) == 1);
    }
    let mut d: usize = 1;
    let mut i: usize = 1;
    while i < n - 1
        invariant
            n == s@.len(),
            2 <= n,
            s@[0] == '(',
            1 <= i <= n - 1,
            d == spec_depth(s@, i as int),
            d <= i,
            forall|j: int| 1 <= j < i ==> spec_depth(s@, j) >= 1,
        decreases n - i,
    {
        if d == 0 {
            return false;
        }
        let c = s.get_char(i);
        if c == '(' {
            d = d + 1;
        } else if c == ')' {
            d = d - 1;
        }
        i = i + 1;
    }
    true
}

/// The view of an exec visited list.
pub open spec fn spec_visited(v: Seq<String>) -> Seq<Seq<char>> {
    v.map_values(|x: String| x@)
}

/// True when `label` is in the visited list.
fn visited_contains(visited: &Vec<String>, label: &str) -> (r: bool)
    ensures
        r == spec_visited(visited@).contains(label@),
{
    let n = visited.len();
    let mut i: usize = 0;
    while i < n
        invariant
            n == visited@.len(),
            i <= n,
            forall|j: int| 0 <= j < i ==> spec_visited(visited@)[j] != label@,
        decreases n - i,
    {
        if str_eq(visited[i].as_str(), label) {
            proof {
                assert(spec_visited(visited@)[i as int] == label@);
            }
            return true;
        }
        i = i + 1;
    }
    false
}

/// What building a tree from predicate text produces.
///
/// One leading negation is stripped and applied to the node the rest
/// produces.  The rest is split at the top-level operator that a
/// right-to-left scan finds first; a split-free text is one enclosing
/// group to unwrap, a `label:key` leaf, or a bare alias expanded
/// through the dictionary and parsed recursively.  A label already
/// being expanded (`visited`) is reported as not found, so alias
/// cycles end.  `fuel` bounds the expansion depth; the engine starts
/// it above the dictionary's size, which revisit detection keeps
/// unreachable.
pub open spec fn spec_generate(
    s: Seq<char>,
    store: Seq<(String, String)>,
    visited: Seq<Seq<char>>,
    fuel: nat,
) -> Result<NodeView, ErrorView>
    decreases fuel, s.len(),
{
    if spec_find_double_op(s) != -1 {
        Err(
            ErrorView::DoubleOperator(
                s.subrange(spec_find_double_op(s), spec_find_double_op(s) + 2),
            ),
        )
    } else if spec_find_invalid(s) != -1 {
        Err(ErrorView::InvalidCharacter(seq![s[spec_find_invalid(s)]]))
    } else {
        let st = spec_trim(s);
        if st.len() == 0 {
            Err(ErrorView::EmptyNode)
        } else {
            let neg = st[0] == NEGATIVE_SYMBOL;
            let rest = if neg {
                st.skip(1)
            } else {
                st
            };
            match spec_scan_op(rest, rest.len() as int, 0) {
                Err(t) => Err(ErrorView::InvalidCharacter(t)),
                Ok(Some((op, p))) => {
                    proof {
                        crate::text::lemma_trim_le(s);
                        lemma_scan_op_bounds(rest, rest.len() as int, 0);
                    }
                    let lr = spec_generate(rest.subrange(0, p), store, visited, fuel);
                    let rr = spec_generate(rest.skip(p + 1), store, visited, fuel);
                    match (lr, rr) {
                        (Ok(l), Ok(r)) => {
                            let node = if op == AND_SYMBOL {
                                NodeView::All(Box::new(l), Box::new(r))
                            } else {
                                NodeView::Any(Box::new(l), Box::new(r))
                            };
                            Ok(
                                if neg {
                                    NodeView::Not(Box::new(node))
                                } else {
                                    node
                                },
                            )
                        },
                        (Err(e), _) => Err(e),
                        (_, Err(e)) => Err(e),
                    }
                },
                Ok(None) => {
                    let rt = spec_trim(rest);
                    proof {
                        crate::text::lemma_trim_le(s);
                        crate::text::lemma_trim_le(rest);
                    }
                    if rt.len() == 0 {
                        Err(ErrorView::EmptyNode)
                    } else if spec_enclosed(rt) {
                        match spec_generate(rt.subrange(1, rt.len() - 1), store, visited, fuel) {
                            Ok(inner) => Ok(
                                if neg {
                                    NodeView::Not(Box::new(inner))
                                } else {
                                    inner
                                },
                            ),
                            Err(e) => Err(e),
                        }
                    } else if spec_find_char(rt, ':') != -1 {
                        let pos = spec_find_char(rt, ':');
                        if spec_find_char(spec_trim(rt.subrange(0, pos)), ' ') != -1 {
                            Err(ErrorView::MissingOperator)
                        } else {
                            let leaf = NodeView::Leaf(rt);
                            Ok(
                                if neg {
                                    NodeView::Not(Box::new(leaf))
                                } else {
                                    leaf
                                },
                            )
                        }
                    } else if spec_find_char(rt, ' ') != -1 {
                        Err(ErrorView::MissingOperator)
                    } else if visited.contains(rt) {
                        Err(ErrorView::AliasNotFound(rt))
                    } else {
                        match spec_alias_lookup(store, rt) {
                            Some(expansion) => if fuel == 0 {
                                Err(ErrorView::AliasNotFound(rt))
                            } else {
                                match spec_generate(
                                    expansion,
                                    store,
                                    visited.push(rt),
                                    (fuel - 1) as nat,
                                ) {
                                    Ok(t) => Ok(
                                        if neg {
                                            NodeView::Not(Box::new(t))
                                        } else {
                                            t
                                        },
                                    ),
                                    Err(e) => Err(e),
                                }
                            },
                            None => Err(ErrorView::AliasNotFound(rt)),
                        }
                    }
                },
            }
        }
    }
}

/// Build the tree for predicate text `s`; see `spec_generate`.
fn generate_rec(
    s: &str,
    store: &Vec<(String, String)>,
    visited: &mut Vec<String>,
    fuel: usize,
) -> (r: Result<SyntaxTreeNode, CfgBoostError>)
    ensures
        final(visited)@ == old(visited)@,
        match r {
            Ok(t) => spec_generate(s@, store@, spec_visited(old(visited)@), fuel as nat) == Ok::<
                NodeView,
                ErrorView,
            >(t@),
            Err(e) => spec_generate(s@, store@, spec_visited(old(visited)@), fuel as nat) == Err::<
                NodeView,
                ErrorView,
            >(e@),
        },
    decreases fuel, s@.len(),
{
    // the character count fits a usize, which bounds the slice indexes below
    let _s_len: usize = s.unicode_len();
    if let Some(i) = find_double_op(s) {
        let op_text = s.substring_char(i, i + 2);
        return Err(CfgBoostError::DoubleOperator(String::from_str(op_text)));
    }
    if let Some(i) = find_invalid(s) {
        let c = s.get_char(i);
        return Err(CfgBoostError::InvalidCharacter(char_to_string(c)));
    }
    let st = trim_str(s);
    let st_len = st.as_str().unicode_len();
    if st_len == 0 {
        return Err(CfgBoostError::EmptyNode);
    }
    let neg = st.as_str().get_char(0) == NEGATIVE_SYMBOL;
    let rest: &str = if neg {
        st.as_str().substring_char(1, st_len)
    } else {
        st.as_str()
    };
    let rest_len = if neg {
        st_len - 1
    } else {
        st_len
    };
    proof {
        assert(st@.skip(1) =~= st@.subrange(1, st_len as int));
        crate::text::lemma_trim_le(s@);
    }
    match scan_op(rest) {
        Err(e) => Err(e),
        Ok(Some((op, p))) => {
            let left = rest.substring_char(0, p);
            let l = match generate_rec(left, store, visited, fuel) {
                Ok(t) => t,
                Err(e) => {
                    return Err(e);
                },
            };
            let right = rest.substring_char(p + 1, rest_len);
            proof {
                assert(rest@.skip(p + 1) =~= rest@.subrange(p + 1, rest_len as int));
            }
            let r = match generate_rec(right, store, visited, fuel) {
                Ok(t) => t,
                Err(e) => {
                    return Err(e);
                },
            };
            let node = if op == AND_SYMBOL {
                SyntaxTreeNode::all_node(l, r)
            } else {
                SyntaxTreeNode::any_node(l, r)
            };
            Ok(
                if neg {
                    SyntaxTreeNode::not_node(node)
                } else {
                    node
                },
            )
        },
        Ok(None) => {
            let rts = trim_str(rest);
            let m = rts.as_str().unicode_len();
            proof {
                crate::text::lemma_trim_le(rest@);
            }
            if m == 0 {
                return Err(CfgBoostError::EmptyNode);
            }
            if is_enclosed(rts.as_str(), m) {
                let inner = rts.as_str().substring_char(1, m - 1);
                match generate_rec(inner, store, visited, fuel) {
                    Ok(t) => Ok(
                        if neg {
                            SyntaxTreeNode::not_node(t)
                        } else {
                            t
                        },
                    ),
                    Err(e) => Err(e),
                }
            } else if let Some(pos) = find_char(rts.as_str(), ':') {
                let label_part = trim_str(rts.as_str().substring_char(0, pos));
                if let Some(_sp) = find_char(label_part.as_str(), ' ') {
                    Err(CfgBoostError::MissingOperator)
                } else {
                    let leaf = SyntaxTreeNode::Leaf(rts);
                    Ok(
                        if neg {
                            SyntaxTreeNode::not_node(leaf)
                        } else {
                            leaf
                        },
                    )
                }
            } else if let Some(_sp) = find_char(rts.as_str(), ' ') {
                Err(CfgBoostError::MissingOperator)
            } else if visited_contains(visited, rts.as_str()) {
                Err(CfgBoostError::AliasNotFound(rts))
            } else {
                match get_cfg_boost_alias(rts.as_str(), store) {
                    Ok(expansion) => {
                        if fuel == 0 {
                            return Err(CfgBoostError::AliasNotFound(rts));
                        }
                        let ghost visited0 = visited@;
                        visited.push(String::from_str(rts.as_str()));
                        proof {
                            assert(spec_visited(visited@) =~= spec_visited(visited0).push(rts@));
                        }
                        let res = generate_rec(expansion.as_str(), store, visited, fuel - 1);
                        visited.pop();
                        proof {
                            assert(visited@ =~= visited0);
                        }
                        match res {
                            Ok(t) => Ok(
                                if neg {
                                    SyntaxTreeNode::not_node(t)
                                } else {
                                    t
                                },
                            ),
                            Err(e) => Err(e),
                        }
                    },
                    Err(e) => Err(e),
                }
            }
        },
    }
}

/// Text containing `&&`, `||` or `!!` always fails with a double
/// operator error naming its first double operator, whatever the
/// dictionary and budget, before any tree is built.
pub proof fn lemma_double_operator_rejected(
    s: Seq<char>,
    store: Seq<(String, String)>,
    visited: Seq<Seq<char>>,
    fuel: nat,
)
    requires
        spec_has_double_op(s),
    ensures
        spec_generate(s, store, visited, fuel) matches Err(e) && e == ErrorView::DoubleOperator(
            s.subrange(spec_find_double_op(s), spec_find_double_op(s) + 2),
        ),
{
    lemma_find_double_op(s);
}

/// Signed nesting depth of the characters of `s` from index `i` on,
/// counted right to left: a suffix with balanced groups has depth zero.
pub open spec fn spec_rdepth(s: Seq<char>, i: int) -> int
    decreases s.len() - i,
{
    if i < 0 || i >= s.len() {
        0
    } else {
        (if s[i] == ')' {
            1int
        } else if s[i] == '(' {
            -1int
        } else {
            0int
        }) + spec_rdepth(s, i + 1)
    }
}

/// True when index `p` holds a top-level operator of `s`: an `&` or
/// `|` with a balanced suffix to its right.
pub open spec fn spec_top_op_at(s: Seq<char>, p: int) -> bool {
    &&& 0 <= p < s.len()
    &&& (s[p] == AND_SYMBOL || s[p] == OR_SYMBOL)
    &&& spec_rdepth(s, p + 1) == 0
}

/// What the right-to-left scan finds: the rightmost top-level
/// operator among the first `i` characters, when one exists.
pub proof fn lemma_scan_op_characterization(s: Seq<char>, i: int, d: int)
    requires
        0 <= i <= s.len(),
        d == spec_rdepth(s, i),
    ensures
        match spec_scan_op(s, i, d) {
            Ok(Some((c, p))) => 0 <= p < i && s[p] == c && spec_top_op_at(s, p) && forall|q: int|
                p < q < i && (s[q] == AND_SYMBOL || s[q] == OR_SYMBOL) ==> spec_rdepth(s, q + 1)
                    != 0,
            Ok(None) => forall|q: int|
                0 <= q < i && (s[q] == AND_SYMBOL || s[q] == OR_SYMBOL) ==> spec_rdepth(s, q + 1)
                    != 0,
            Err(_) => true,
        },
    decreases i,
{
    if i > 0 {
        let c = s[i - 1];
        assert(spec_rdepth(s, i - 1) == (if c == ')' {
            1int
        } else if c == '(' {
            -1int
        } else {
            0int
        }) + d);
        if c == ')' {
            lemma_scan_op_characterization(s, i - 1, d + 1);
        } else if c == '(' {
            if d != 0 {
                lemma_scan_op_characterization(s, i - 1, d - 1);
            }
        } else if d == 0 && (c == AND_SYMBOL || c == OR_SYMBOL) {
        } else {
            lemma_scan_op_characterization(s, i - 1, d);
        }
    }
}

/// For any predicate text (with no double operator, invalid character
/// or leading negation) whose rightmost top-level operator stands at
/// `p`: when a tree is built, its root is the ALL node split at `p`
/// if that operator is `&`, and the ANY node split at `p` if it is
/// `|`, with the two children built from the two sides.
pub proof fn lemma_root_split_at_top_operator(
    s: Seq<char>,
    store: Seq<(String, String)>,
    visited: Seq<Seq<char>>,
    fuel: nat,
    p: int,
)
    requires
        !spec_has_double_op(s),
        spec_find_invalid(s) == -1,
        spec_trim(s).len() > 0,
        spec_trim(s)[0] != NEGATIVE_SYMBOL,
        spec_top_op_at(spec_trim(s), p),
        forall|q: int|
            p < q < spec_trim(s).len() && (spec_trim(s)[q] == AND_SYMBOL || spec_trim(s)[q]
                == OR_SYMBOL) ==> spec_rdepth(spec_trim(s), q + 1) != 0,
    ensures
        spec_generate(s, store, visited, fuel) matches Ok(t) ==> {
            let st = spec_trim(s);
            let lr = spec_generate(st.subrange(0, p), store, visited, fuel);
            let rr = spec_generate(st.skip(p + 1), store, visited, fuel);
            &&& (st[p] == AND_SYMBOL ==> (t matches NodeView::All(l, r) && lr == Ok::<
                NodeView,
                ErrorView,
            >(*l) && rr == Ok::<NodeView, ErrorView>(*r)))
            &&& (st[p] == OR_SYMBOL ==> (t matches NodeView::Any(l, r) && lr == Ok::<
                NodeView,
                ErrorView,
            >(*l) && rr == Ok::<NodeView, ErrorView>(*r)))
        },
{
    lemma_find_double_op(s);
    let st = spec_trim(s);
    assert(spec_rdepth(st, st.len() as int) == 0);
    lemma_scan_op_characterization(st, st.len() as int, 0);
    match spec_scan_op(st, st.len() as int, 0) {
        Ok(Some((c, p2))) => {
            if p2 < p {
                assert(spec_rdepth(st, p + 1) != 0);
                assert(false);
            } else if p2 > p {
                assert(spec_rdepth(st, p2 + 1) != 0);
                assert(false);
            }
        },
        Ok(None) => {
            assert(spec_rdepth(st, p + 1) != 0);
            assert(false);
        },
        Err(_) => {},
    }
}

impl SyntaxTreeNode {
    /// Generate a predicate syntax tree from predicate source text.
    ///
    /// The expansion budget starts above the dictionary's size (its
    /// twelve built-in aliases, the override store, and one more), so
    /// the revisit check on alias labels fires before the budget can
    /// run out.
    pub fn generate(stream_text: &str, store: &Vec<(String, String)>) -> (r: Result<
        SyntaxTreeNode,
        CfgBoostError,
    >)
        requires
            store@.len() + 13 <= usize::MAX,
        ensures
            match r {
                Ok(t) => spec_generate(
                    stream_text@,
                    store@,
                    Seq::empty(),
                    (store@.len() + 13) as nat,
                ) == Ok::<NodeView, ErrorView>(t@),
                Err(e) => spec_generate(
                    stream_text@,
                    store@,
                    Seq::empty(),
                    (store@.len() + 13) as nat,
                ) == Err::<NodeView, ErrorView>(e@),
            },
    {
        let mut visited: Vec<String> = Vec::new();
        let fuel = store.len() + 13;
        let r = generate_rec(stream_text, store, &mut visited, fuel);
        proof {
            assert(spec_visited(Seq::<String>::empty()) =~= Seq::<Seq<char>>::empty());
        }
        r
    }
}

} // verus!

