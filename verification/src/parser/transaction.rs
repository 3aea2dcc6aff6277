use vstd::prelude::*;

use crate::model::{Amount, Currency};
use crate::parser::error::SyntaxResult;
use crate::parser::expect::{
    expect_identifier, expect_operator, expect_stringlike, parse_amount, pop_identifier,
    pop_operator, pop_stringlike, stepped, Step, TokensView,
};
use crate::parser::token::{tokens_view, Operator, OperatorView, Token};
use crate::text::{push_spaced, push_str, string_of, underscores_to_spaces};

verus! {

// ---------------------------------------------------------------------------
// Trade
// ---------------------------------------------------------------------------

/// The other half of a trade: what the patient gives back to the agent.
#[derive(Clone, Debug, PartialEq, Eq)]
pub struct Trade {
    patient: String,
    amount: Amount,
}

pub struct TradeView {
    pub patient: Seq<char>,
    pub amount: Amount,
}

impl View for Trade {
    type V = TradeView;

    closed spec fn view(&self) -> TradeView {
        TradeView { patient: self.patient@, amount: self.amount }
    }
}

/// `amount patient`.
pub open spec fn parse_trade(t: TokensView) -> Step<TradeView> {
    match parse_amount(t) {
        (Err(e), t1) => (Err(e), t1),
        (Ok(a), t1) => match pop_identifier(t1, "need identifier as second argument to trade"@) {
            (Ok(p), t2) => (Ok(TradeView { patient: p, amount: a }), t2),
            (Err(e), t2) => (Err(e), t2),
        },
    }
}

impl Trade {
    pub fn new(amount: Amount, patient: String) -> (r: Trade)
        ensures
            r@ == (TradeView { patient: patient@, amount }),
    {
        Trade { patient, amount }
    }

    pub fn patient(&self) -> (r: &str)
        ensures
            r@ == self@.patient,
    {
        self.patient.as_str()
    }

    pub fn amount(&self) -> (r: Amount)
        ensures
            r == self@.amount,
    {
        self.amount
    }

    /// A copy of this trade.
    pub fn duplicate(&self) -> (r: Trade)
        ensures
            r@ == self@,
    {
        Trade { patient: self.patient.clone(), amount: self.amount }
    }

    pub fn from_tokens(tokens: &mut Vec<Token>) -> (r: SyntaxResult<Trade>)
        ensures
            stepped(r, final(tokens)@, parse_trade(tokens_view(old(tokens)@))),
    {
        let amount = Amount::from_tokens(tokens)?;
        let patient = expect_identifier(tokens, "need identifier as second argument to trade")?;
        Ok(Trade { patient, amount })
    }
}

// ---------------------------------------------------------------------------
// Transaction
// ---------------------------------------------------------------------------

/// One line of a log that moves assets: who acts, how much, and what happens to it.
#[derive(Clone, Debug)]
pub struct Transaction {
    agent: String,
    amount: Amount,
    operator: Operator,
    comment: String,
}

pub struct TransactionView {
    pub agent: Seq<char>,
    pub amount: Amount,
    pub operator: OperatorView,
    pub comment: Seq<char>,
}

impl View for Transaction {
    type V = TransactionView;

    closed spec fn view(&self) -> TransactionView {
        TransactionView {
            agent: self.agent@,
            amount: self.amount,
            operator: self.operator@,
            comment: self.comment@,
        }
    }
}

/// `agent amount operator ["comment"]`.
pub open spec fn parse_transaction(t: TokensView) -> Step<TransactionView> {
    match pop_identifier(t, "need identifier as first argument"@) {
        (Err(e), t1) => (Err(e), t1),
        (Ok(agent), t1) => match parse_amount(t1) {
            (Err(e), t2) => (Err(e), t2),
            (Ok(amount), t2) => match pop_operator(t2, "need operator in transaction"@) {
                (Err(e), t3) => (Err(e), t3),
                (Ok(operator), t3) => match pop_stringlike(t3, ""@) {
                    (Ok(comment), t4) => (
                        Ok(TransactionView { agent, amount, operator, comment }),
                        t4,
                    ),
                    (Err(_), t4) => (
                        Ok(TransactionView { agent, amount, operator, comment: Seq::empty() }),
                        t4,
                    ),
                },
            },
        },
    }
}

/// The comment of one half of a transfer: `Transfer <other side>[: comment]`.
pub open spec fn half_comment_of(other: Seq<char>, comment: Seq<char>) -> Seq<char> {
    "Transfer "@ + other + if comment.len() == 0 {
        Seq::<char>::empty()
    } else {
        ": "@ + comment
    }
}

/// A transfer as a removal from the agent and an addition to the patient; any other
/// transaction by itself.
pub open spec fn expand_halves(t: TransactionView) -> Seq<TransactionView> {
    match t.operator {
        OperatorView::Transfer(p) => seq![
            TransactionView {
                agent: t.agent,
                amount: t.amount,
                operator: OperatorView::Minus,
                comment: half_comment_of(p, t.comment),
            },
            TransactionView {
                agent: p,
                amount: t.amount,
                operator: OperatorView::Plus,
                comment: half_comment_of(t.agent, t.comment),
            },
        ],
        _ => seq![t],
    }
}

fn half_comment(other: &str, comment: &str) -> (r: String)
    ensures
        r@ == half_comment_of(other@, comment@),
{
    let mut m: Vec<char> = Vec::new();
    push_str(&mut m, "Transfer ");
    push_str(&mut m, other);
    if comment.unicode_len() != 0 {
        push_str(&mut m, ": ");
        push_str(&mut m, comment);
    }
    assert(m@ =~= half_comment_of(other@, comment@));
    string_of(m.as_slice())
}

impl Transaction {
    pub fn new(agent: String, amount: Amount, operator: Operator, comment: String) -> (r:
        Transaction)
        ensures
            r@ == (TransactionView {
                agent: agent@,
                amount,
                operator: operator@,
                comment: comment@,
            }),
    {
        Transaction { agent, amount, operator, comment }
    }

    pub fn agent(&self) -> (r: &str)
        ensures
            r@ == self@.agent,
    {
        self.agent.as_str()
    }

    pub fn amount(&self) -> (r: Amount)
        ensures
            r == self@.amount,
    {
        self.amount
    }

    pub fn operator(&self) -> (r: &Operator)
        ensures
            r@ == self@.operator,
    {
        &self.operator
    }

    pub fn comment(&self) -> (r: &str)
        ensures
            r@ == self@.comment,
    {
        self.comment.as_str()
    }

    /// A transfer written as its two halves: the amount taken from the agent, then given
    /// to the patient, each commented `Transfer <other side>[: comment]`. Any other
    /// transaction stands as it is.
    pub fn expand(&self) -> (r: Vec<Transaction>)
        ensures
            r@.map_values(|t: Transaction| t@) == expand_halves(self@),
    {
        match &self.operator {
            Operator::Transfer(patient) => {
                let mut r: Vec<Transaction> = Vec::new();
                r.push(
                    Transaction {
                        agent: self.agent.clone(),
                        amount: self.amount,
                        operator: Operator::Minus,
                        comment: half_comment(patient.as_str(), self.comment.as_str()),
                    },
                );
                r.push(
                    Transaction {
                        agent: patient.clone(),
                        amount: self.amount,
                        operator: Operator::Plus,
                        comment: half_comment(self.agent.as_str(), self.comment.as_str()),
                    },
                );
                assert(r@.map_values(|t: Transaction| t@) =~= expand_halves(self@));
                r
            },
            _ => {
                let mut r: Vec<Transaction> = Vec::new();
                r.push(self.duplicate());
                assert(r@.map_values(|t: Transaction| t@) =~= expand_halves(self@));
                r
            },
        }
    }

    /// A copy of this transaction.
    pub fn duplicate(&self) -> (r: Transaction)
        ensures
            r@ == self@,
    {
        Transaction {
            agent: self.agent.clone(),
            amount: self.amount,
            operator: self.operator.duplicate(),
            comment: self.comment.clone(),
        }
    }

    pub fn from_tokens(tokens: &mut Vec<Token>) -> (r: SyntaxResult<Transaction>)
        ensures
            stepped(r, final(tokens)@, parse_transaction(tokens_view(old(tokens)@))),
    {
        let agent = expect_identifier(tokens, "need identifier as first argument")?;
        let amount = Amount::from_tokens(tokens)?;
        let operator = expect_operator(tokens, "need operator in transaction")?;
        let comment = match expect_stringlike(tokens, "") {
            Ok(c) => c,
            Err(_) => String::new(),
        };
        Ok(Transaction { agent, amount, operator, comment })
    }

    /// A transaction read from the front of `tokens`; what follows it is ignored.
    pub fn from_vec(tokens: Vec<Token>) -> (r: SyntaxResult<Transaction>)
        ensures
            match parse_transaction(tokens_view(tokens@)).0 {
                Ok(v) => r matches Ok(x) && x@ == v,
                Err(e) => r matches Err(x) && x@ == e,
            },
    {
        let mut tokens = tokens;
        Transaction::from_tokens(&mut tokens)
    }
}

// ---------------------------------------------------------------------------
// AtomicTransaction
// ---------------------------------------------------------------------------

/// A change to one balance of one entity: what transactions come down to.
#[derive(Clone, Debug)]
pub struct AtomicTransaction {
    agent: String,
    amount: i32,
    currency: Currency,
    comment: String,
}

pub struct AtomicView {
    pub agent: Seq<char>,
    pub amount: i32,
    pub currency: Currency,
    pub comment: Seq<char>,
}

impl View for AtomicTransaction {
    type V = AtomicView;

    closed spec fn view(&self) -> AtomicView {
        AtomicView {
            agent: self.agent@,
            amount: self.amount,
            currency: self.currency,
            comment: self.comment@,
        }
    }
}

pub open spec fn atoms_view(v: Seq<AtomicTransaction>) -> Seq<AtomicView> {
    v.map_values(|a: AtomicTransaction| a@)
}

/// The comment on each side of a transfer: `Transfer <other side>[: comment]`, with the
/// other side's underscores written as spaces.
pub open spec fn transfer_comment(other: Seq<char>, comment: Seq<char>) -> Seq<char> {
    "Transfer "@ + underscores_to_spaces(other) + if comment.len() == 0 {
        Seq::<char>::empty()
    } else {
        ": "@ + comment
    }
}

/// The two changes that move `amount` of `currency` from `agent` to `patient`.
pub open spec fn transfer_atoms(
    agent: Seq<char>,
    patient: Seq<char>,
    amount: i32,
    currency: Currency,
    comment: Seq<char>,
) -> Seq<AtomicView> {
    seq![
        AtomicView {
            agent,
            amount: (-amount) as i32,
            currency,
            comment: transfer_comment(patient, comment),
        },
        AtomicView { agent: patient, amount, currency, comment: transfer_comment(agent, comment) },
    ]
}

/// The net change that `atoms` make to the total of `currency`, over all holders.
pub open spec fn net(atoms: Seq<AtomicView>, currency: Currency) -> int
    decreases atoms.len(),
{
    if atoms.len() == 0 {
        0
    } else {
        net(atoms.drop_last(), currency) + if atoms.last().currency == currency {
            atoms.last().amount as int
        } else {
            0
        }
    }
}

pub proof fn lemma_net_append(a: Seq<AtomicView>, b: Seq<AtomicView>, currency: Currency)
    ensures
        net(a + b, currency) == net(a, currency) + net(b, currency),
    decreases b.len(),
{
    if b.len() == 0 {
        assert(a + b =~= a);
    } else {
        lemma_net_append(a, b.drop_last(), currency);
        assert((a + b).drop_last() =~= a + b.drop_last());
    }
}

/// A transfer creates and destroys nothing: its changes to every currency sum to zero.
pub proof fn law_transfer_conserves(
    agent: Seq<char>,
    patient: Seq<char>,
    amount: i32,
    currency: Currency,
    comment: Seq<char>,
    c: Currency,
)
    requires
        amount != i32::MIN,
    ensures
        net(transfer_atoms(agent, patient, amount, currency, comment), c) == 0,
{
    let s = transfer_atoms(agent, patient, amount, currency, comment);
    assert(s.drop_last().drop_last() =~= Seq::<AtomicView>::empty());
    assert(net(s.drop_last().drop_last(), c) == 0);
    assert(net(s.drop_last(), c) == (if currency == c { (-amount) as i32 as int } else { 0 }));
}

/// A trade creates and destroys nothing: its changes to every currency sum to zero.
pub proof fn law_trade_conserves(
    agent: Seq<char>,
    patient: Seq<char>,
    amount1: i32,
    currency1: Currency,
    amount2: i32,
    currency2: Currency,
    comment: Seq<char>,
    c: Currency,
)
    requires
        amount1 != i32::MIN,
        amount2 != i32::MIN,
    ensures
        net(
            transfer_atoms(agent, patient, amount1, currency1, comment) + transfer_atoms(
                patient,
                agent,
                amount2,
                currency2,
                comment,
            ),
            c,
        ) == 0,
{
    law_transfer_conserves(agent, patient, amount1, currency1, comment, c);
    law_transfer_conserves(patient, agent, amount2, currency2, comment, c);
    lemma_net_append(
        transfer_atoms(agent, patient, amount1, currency1, comment),
        transfer_atoms(patient, agent, amount2, currency2, comment),
        c,
    );
}

fn transfer_comment_string(other: &str, comment: &str) -> (r: String)
    ensures
        r@ == transfer_comment(other@, comment@),
{
    let mut m: Vec<char> = Vec::new();
    push_str(&mut m, "Transfer ");
    push_spaced(&mut m, other);
    if comment.unicode_len() != 0 {
        push_str(&mut m, ": ");
        push_str(&mut m, comment);
    }
    assert(m@ =~= transfer_comment(other@, comment@));
    string_of(m.as_slice())
}

impl AtomicTransaction {
    pub fn new(agent: String, amount: i32, currency: Currency, comment: String) -> (r:
        AtomicTransaction)
        ensures
            r@ == (AtomicView { agent: agent@, amount, currency, comment: comment@ }),
    {
        AtomicTransaction { agent, amount, currency, comment }
    }

    /// The two changes that move `amount` of `currency` from `agent` to `patient`.
    pub fn transfer_vec(
        agent: &str,
        patient: &str,
        amount: i32,
        currency: Currency,
        comment: &str,
    ) -> (r: Vec<AtomicTransaction>)
        requires
            amount != i32::MIN,
        ensures
            atoms_view(r@) == transfer_atoms(agent@, patient@, amount, currency, comment@),
    {
        let mut r: Vec<AtomicTransaction> = Vec::new();
        r.push(
            AtomicTransaction {
                agent: agent.to_owned(),
                amount: -amount,
                currency,
                comment: transfer_comment_string(patient, comment),
            },
        );
        r.push(
            AtomicTransaction {
                agent: patient.to_owned(),
                amount,
                currency,
                comment: transfer_comment_string(agent, comment),
            },
        );
        assert(atoms_view(r@) =~= transfer_atoms(agent@, patient@, amount, currency, comment@));
        r
    }

    /// A transfer from `agent` to `patient`, then one from `patient` back to `agent`.
    pub fn trade_vec(
        agent: &str,
        patient: &str,
        amount1: i32,
        currency1: Currency,
        amount2: i32,
        currency2: Currency,
        comment: &str,
    ) -> (r: Vec<AtomicTransaction>)
        requires
            amount1 != i32::MIN,
            amount2 != i32::MIN,
        ensures
            atoms_view(r@) == transfer_atoms(agent@, patient@, amount1, currency1, comment@)
                + transfer_atoms(patient@, agent@, amount2, currency2, comment@),
    {
        let mut one = AtomicTransaction::transfer_vec(agent, patient, amount1, currency1, comment);
        let mut two = AtomicTransaction::transfer_vec(patient, agent, amount2, currency2, comment);
        let ghost a = one@;
        let ghost b = two@;
        one.append(&mut two);
        assert(atoms_view(one@) =~= atoms_view(a) + atoms_view(b));
        one
    }

    pub fn agent(&self) -> (r: &str)
        ensures
            r@ == self@.agent,
    {
        self.agent.as_str()
    }

    pub fn amount(&self) -> (r: i32)
        ensures
            r == self@.amount,
    {
        self.amount
    }

    pub fn currency(&self) -> (r: Currency)
        ensures
            r == self@.currency,
    {
        self.currency
    }

    pub fn comment(&self) -> (r: &str)
        ensures
            r@ == self@.comment,
    {
        self.comment.as_str()
    }

    /// A copy of this change.
    pub fn duplicate(&self) -> (r: AtomicTransaction)
        ensures
            r@ == self@,
    {
        AtomicTransaction {
            agent: self.agent.clone(),
            amount: self.amount,
            currency: self.currency,
            comment: self.comment.clone(),
        }
    }
}

} // verus!
