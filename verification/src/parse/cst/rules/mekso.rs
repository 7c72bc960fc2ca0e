//! Mathematical expressions.

use vstd::prelude::*;

use crate::parse::cst::rules::{
    Frees, MiscNumbers, NaheGuhekTGik, Selbri, SelbriLikeConnectedPost, Sumti,
    SumtiLikeConnectedPost, SumtiModifier, TagWords, WithFree,
};
use crate::parse::cst::rules::connectives::{Gek, Gik, JoikEk, JoikJek};
use crate::parse::cst::rules::helpers::Separated;
use crate::parse::cst::rules::selmaho::{
    Bihe, Bo, Boi, Fuha, Johi, Ke, Kehe, Kuhe, Luhu, Maho, Mohe, Nahe, Nahu, Nihe, Peho, Se,
    Tehu, Veho, Vei, Vuhu,
};

verus! {

/// ```text
/// Expression <- ExpressionReversePolish / ExpressionNormal
/// ```
#[derive(Debug)]
pub enum Expression<'arena> {
    ReversePolish(WithFree<'arena, Fuha<'arena>>, ReversePolish<'arena>),
    Normal(
        Separated<'arena, Separated<'arena, Expression1<'arena>, (WithFree<'arena, Bihe<'arena>>, Operator<'arena>)>, Operator<'arena>>,
    ),
}

/// ```text
/// ReversePolish <- Operand RPTail*
/// ```
#[derive(Debug)]
pub struct ReversePolish<'arena>(pub Operand<'arena>, pub &'arena [RPTail<'arena>]);

/// ```text
/// RPTail <- ReversePolish Operator
/// ```
#[derive(Debug)]
pub struct RPTail<'arena>(pub ReversePolish<'arena>, pub Operator<'arena>);

/// ```text
/// Expression1 <- Expression1Operand / Expression1Forethought
/// ```
#[derive(Debug)]
pub enum Expression1<'arena> {
    Operand(Operand<'arena>),
    Forethought(ForethoughtExpression<'arena>),
}

/// ```text
/// ForethoughtExpression <- Peho Frees? Operator Expression1+ Kuhe? Frees
/// ```
#[derive(Debug)]
pub struct ForethoughtExpression<'arena> {
    pub peho: Option<WithFree<'arena, Peho<'arena>>>,
    pub operator: Operator<'arena>,
    pub operands: &'arena [Expression1<'arena>],
    pub kuhe: Option<Kuhe<'arena>>,
    pub frees: Frees<'arena>,
}

/// ```text
/// Operand <- Operand1 ConnectedOperand*
/// ```
#[derive(Debug)]
pub struct Operand<'arena>(pub Operand1<'arena>, pub &'arena [ConnectedOperand<'arena>]);

/// What `ConnectedOperand` stands for in the grammar.
pub type ConnectedOperand<'arena> = SumtiLikeConnectedPost<'arena, Operand1<'arena>, Operand<'arena>>;

/// ```text
/// Operand1 <- Operand2List
/// ```
#[derive(Debug)]
pub struct Operand1<'arena>(
    pub Separated<'arena, Operand2<'arena>, (JoikEk<'arena>, Option<TagWords<'arena>>, WithFree<'arena, Bo<'arena>>)>,
);

/// ```text
/// Operand2 <- Operand2ConnectedPre* Operand3
/// ```
#[derive(Debug)]
pub struct Operand2<'arena>(pub &'arena [Operand2ConnectedPre<'arena>], pub Operand3<'arena>);

/// ```text
/// Operand2ConnectedPre <- Gek Operand Gik
/// ```
#[derive(Debug)]
pub struct Operand2ConnectedPre<'arena>(pub Gek<'arena>, pub Operand<'arena>, pub Gik<'arena>);

/// ```text
/// Operand3 <- Operand3Nihe / Operand3Mohe / Operand3Johi / Operand3Modified /
///     Operand3Parenthesized / Operand3Number
/// ```
#[derive(Debug)]
pub enum Operand3<'arena> {
    Nihe(WithFree<'arena, Nihe<'arena>>, Selbri<'arena>, Option<Tehu<'arena>>, Frees<'arena>),
    Mohe(WithFree<'arena, Mohe<'arena>>, Sumti<'arena>, Option<Tehu<'arena>>, Frees<'arena>),
    Johi(
        WithFree<'arena, Johi<'arena>>,
        &'arena [Expression1<'arena>],
        Option<Tehu<'arena>>,
        Frees<'arena>,
    ),
    Modified(OperandModifier<'arena>, Operand<'arena>, Option<Luhu<'arena>>),
    Parenthesized(
        WithFree<'arena, Vei<'arena>>,
        Expression<'arena>,
        Option<Veho<'arena>>,
        Frees<'arena>,
    ),
    Number(MiscNumbers<'arena>, Option<Boi<'arena>>, Frees<'arena>),
}

/// What `OperandModifier` stands for in the grammar.
pub type OperandModifier<'arena> = SumtiModifier<'arena>;

/// ```text
/// Operator <- Operator1 ConnectedOperator*
/// ```
#[derive(Debug)]
pub struct Operator<'arena>(pub Operator1<'arena>, pub &'arena [ConnectedOperator<'arena>]);

/// What `ConnectedOperator` stands for in the grammar.
pub type ConnectedOperator<'arena> = SelbriLikeConnectedPost<'arena, Operator1<'arena>, Operator<'arena>>;

/// ```text
/// Operator1 <- OperatorGuhek* Operator2
/// ```
#[derive(Debug)]
pub struct Operator1<'arena>(pub &'arena [NaheGuhekTGik<'arena, Self>], pub Operator2<'arena>);

/// ```text
/// Operator2 <- Operator3List
/// ```
#[derive(Debug)]
pub struct Operator2<'arena>(
    pub Separated<'arena, Operator3<'arena>, (JoikJek<'arena>, Option<TagWords<'arena>>, WithFree<'arena, Bo<'arena>>)>,
);

/// ```text
/// Operator3 <- Operator3Simple / Operator3Grouped
/// ```
#[derive(Debug)]
pub enum Operator3<'arena> {
    Simple(OperatorComponent<'arena>),
    Grouped(WithFree<'arena, Ke<'arena>>, Operator<'arena>, Kehe<'arena>, Frees<'arena>),
}

/// ```text
/// OperatorComponent <- OperatorComponentPre* OperatorComponent1
/// ```
#[derive(Debug)]
pub struct OperatorComponent<'arena>(
    pub &'arena [OperatorComponentPre<'arena>],
    pub OperatorComponent1<'arena>,
);

/// ```text
/// OperatorComponentPre <- OperatorComponentPreNahe / OperatorComponentPreSe
/// ```
#[derive(Debug)]
pub enum OperatorComponentPre<'arena> {
    Nahe(WithFree<'arena, Nahe<'arena>>),
    Se(WithFree<'arena, Se<'arena>>),
}

/// ```text
/// OperatorComponent1 <- OperatorComponent1Maho / OperatorComponent1Nahu /
///     OperatorComponent1Vuhu
/// ```
#[derive(Debug)]
pub enum OperatorComponent1<'arena> {
    Maho(WithFree<'arena, Maho<'arena>>, Expression<'arena>, Option<Tehu<'arena>>, Frees<'arena>),
    Nahu(WithFree<'arena, Nahu<'arena>>, Selbri<'arena>, Option<Tehu<'arena>>, Frees<'arena>),
    Vuhu(WithFree<'arena, Vuhu<'arena>>),
}

} // verus!
