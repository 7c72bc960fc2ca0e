//! The nodes of single words.
//!
//! A word of the grammar is a token of one selmaho, with what may cling to
//! it: the `ba'e` before it and the indicators behind it. The names of the
//! selmaho stand for such words, so that the productions read as the grammar
//! is written.

use vstd::prelude::*;

use crate::lex::Selmaho;
use crate::parse::cst::rules::Indicators;
use crate::span::Span;

verus! {

/// A word with the `ba'e` before it and the indicators behind it.
#[derive(Debug)]
pub struct Word<'arena> {
    /// The selmaho of the word.
    pub selmaho: Selmaho,
    /// The emphasis words before the word.
    pub bahe: &'arena [Bahe],
    /// Whether the word is experimental.
    pub experimental: bool,
    /// Where the word stands in the text.
    pub span: Span,
    /// The indicators behind the word.
    pub indicators: Option<&'arena Indicators<'arena>>,
}

/// A word that stands alone: nothing clings to it.
#[derive(Debug)]
pub struct Bare {
    /// The selmaho of the word.
    pub selmaho: Selmaho,
    /// Whether the word is experimental.
    pub experimental: bool,
    /// Where the word stands in the text.
    pub span: Span,
}

/// A word of BAhE, which puts emphasis on the word behind it.
#[derive(Debug)]
pub struct Bahe {
    /// Whether the word is experimental.
    pub experimental: bool,
    /// Where the word stands in the text.
    pub span: Span,
}

/// A word of BU, which makes a letter of the word before it.
#[derive(Debug)]
pub struct Bu {
    /// Whether the word is experimental.
    pub experimental: bool,
    /// Where the word stands in the text.
    pub span: Span,
}

/// A word of `A`.
pub type A<'arena> = Word<'arena>;

/// A word of `Bai`.
pub type Bai<'arena> = Word<'arena>;

/// A word of `Be`.
pub type Be<'arena> = Word<'arena>;

/// A word of `Beho`.
pub type Beho<'arena> = Word<'arena>;

/// A word of `Bei`.
pub type Bei<'arena> = Word<'arena>;

/// A word of `Bihe`.
pub type Bihe<'arena> = Word<'arena>;

/// A word of `Bihi`.
pub type Bihi<'arena> = Word<'arena>;

/// A word of `Bo`.
pub type Bo<'arena> = Word<'arena>;

/// A word of `Boi`.
pub type Boi<'arena> = Word<'arena>;

/// A word of `By`.
pub type By<'arena> = Word<'arena>;

/// A word of `Caha`.
pub type Caha<'arena> = Word<'arena>;

/// A word of `Cai`.
pub type Cai<'arena> = Word<'arena>;

/// A word of `Cehe`.
pub type Cehe<'arena> = Word<'arena>;

/// A word of `Cei`.
pub type Cei<'arena> = Word<'arena>;

/// A word of `Cmevla`.
pub type Cmevla<'arena> = Word<'arena>;

/// A word of `Co`.
pub type Co<'arena> = Word<'arena>;

/// A word of `Coi`.
pub type Coi<'arena> = Word<'arena>;

/// A word of `Giha`.
pub type Giha<'arena> = Word<'arena>;

/// A word of `Cu`.
pub type Cu<'arena> = Word<'arena>;

/// A word of `Cuhe`.
pub type Cuhe<'arena> = Word<'arena>;

/// A word of `Daho`.
pub type Daho<'arena> = Word<'arena>;

/// A word of `Dohu`.
pub type Dohu<'arena> = Word<'arena>;

/// A word of `Doi`.
pub type Doi<'arena> = Word<'arena>;

/// A word of `Tuhe`.
pub type Tuhe<'arena> = Word<'arena>;

/// A word of `Tuhu`.
pub type Tuhu<'arena> = Word<'arena>;

/// A word of `Fa`.
pub type Fa<'arena> = Word<'arena>;

/// A word of `Faha`.
pub type Faha<'arena> = Word<'arena>;

/// A word of `Faho`.
pub type Faho<'arena> = Word<'arena>;

/// A word of `Fehe`.
pub type Fehe<'arena> = Word<'arena>;

/// A word of `Fehu`.
pub type Fehu<'arena> = Word<'arena>;

/// A word of `Fiho`.
pub type Fiho<'arena> = Word<'arena>;

/// A word of `Foi`.
pub type Foi<'arena> = Word<'arena>;

/// A word of `Fuha`.
pub type Fuha<'arena> = Word<'arena>;

/// A word of `Fuhe`, which takes no indicators.
pub type Fuhe<'arena> = Word<'arena>;

/// A word of `Fuhivla`.
pub type Fuhivla<'arena> = Word<'arena>;

/// A word of `Fuho`.
pub type Fuho<'arena> = Word<'arena>;

/// A word of `Ga`.
pub type Ga<'arena> = Word<'arena>;

/// A word of `Gaho`.
pub type Gaho<'arena> = Word<'arena>;

/// A word of `Gehu`.
pub type Gehu<'arena> = Word<'arena>;

/// A word of `Gi`.
pub type Gi<'arena> = Word<'arena>;

/// A word of `Gismu`.
pub type Gismu<'arena> = Word<'arena>;

/// A word of `Goha`.
pub type Goha<'arena> = Word<'arena>;

/// A word of `Goi`.
pub type Goi<'arena> = Word<'arena>;

/// A word of `Niho`.
pub type Niho<'arena> = Word<'arena>;

/// A word of `Guha`.
pub type Guha<'arena> = Word<'arena>;

/// A word of `I`.
pub type I<'arena> = Word<'arena>;

/// A word of `Ja`.
pub type Ja<'arena> = Word<'arena>;

/// A word of `Jai`.
pub type Jai<'arena> = Word<'arena>;

/// A word of `Johi`.
pub type Johi<'arena> = Word<'arena>;

/// A word of `Joi`.
pub type Joi<'arena> = Word<'arena>;

/// A word of `Ke`.
pub type Ke<'arena> = Word<'arena>;

/// A word of `Kehe`.
pub type Kehe<'arena> = Word<'arena>;

/// A word of `Kei`.
pub type Kei<'arena> = Word<'arena>;

/// A word of `Ki`.
pub type Ki<'arena> = Word<'arena>;

/// A word of `Koha`.
pub type Koha<'arena> = Word<'arena>;

/// A word of `Ku`.
pub type Ku<'arena> = Word<'arena>;

/// A word of `Kuhe`.
pub type Kuhe<'arena> = Word<'arena>;

/// A word of `Kuho`.
pub type Kuho<'arena> = Word<'arena>;

/// A word of `La`.
pub type La<'arena> = Word<'arena>;

/// A word of `Lahe`.
pub type Lahe<'arena> = Word<'arena>;

/// A word of `Lau`.
pub type Lau<'arena> = Word<'arena>;

/// A word of `Le`.
pub type Le<'arena> = Word<'arena>;

/// A word of `Lehu`.
pub type Lehu<'arena> = Word<'arena>;

/// A word of `Li`.
pub type Li<'arena> = Word<'arena>;

/// A word of `Lihu`.
pub type Lihu<'arena> = Word<'arena>;

/// A word of `Loho`.
pub type Loho<'arena> = Word<'arena>;

/// A word of `Lohu`, which takes neither emphasis nor indicators.
pub type Lohu = Bare;

/// A word of `Lu`, which takes neither emphasis nor indicators.
pub type Lu = Bare;

/// A word of `Luhu`.
pub type Luhu<'arena> = Word<'arena>;

/// A word of `Lujvo`.
pub type Lujvo<'arena> = Word<'arena>;

/// A word of `Maho`.
pub type Maho<'arena> = Word<'arena>;

/// A word of `Mai`.
pub type Mai<'arena> = Word<'arena>;

/// A word of `Me`.
pub type Me<'arena> = Word<'arena>;

/// A word of `Mehu`.
pub type Mehu<'arena> = Word<'arena>;

/// A word of `Mohe`.
pub type Mohe<'arena> = Word<'arena>;

/// A word of `Mohi`.
pub type Mohi<'arena> = Word<'arena>;

/// A word of `Moi`.
pub type Moi<'arena> = Word<'arena>;

/// A word of `Na`.
pub type Na<'arena> = Word<'arena>;

/// A word of `Nahe`.
pub type Nahe<'arena> = Word<'arena>;

/// A word of `Nahu`.
pub type Nahu<'arena> = Word<'arena>;

/// A word of `Nai`.
pub type Nai<'arena> = Word<'arena>;

/// A word of `Nihe`.
pub type Nihe<'arena> = Word<'arena>;

/// A word of `Noi`.
pub type Noi<'arena> = Word<'arena>;

/// A word of `Nu`.
pub type Nu<'arena> = Word<'arena>;

/// A word of `Nuha`.
pub type Nuha<'arena> = Word<'arena>;

/// A word of `Nuhi`.
pub type Nuhi<'arena> = Word<'arena>;

/// A word of `Nuhu`.
pub type Nuhu<'arena> = Word<'arena>;

/// A word of `Pa`.
pub type Pa<'arena> = Word<'arena>;

/// A word of `Pehe`.
pub type Pehe<'arena> = Word<'arena>;

/// A word of `Peho`.
pub type Peho<'arena> = Word<'arena>;

/// A word of `Pu`.
pub type Pu<'arena> = Word<'arena>;

/// A word of `Raho`.
pub type Raho<'arena> = Word<'arena>;

/// A word of `Roi`.
pub type Roi<'arena> = Word<'arena>;

/// A word of `Se`.
pub type Se<'arena> = Word<'arena>;

/// A word of `Sehu`.
pub type Sehu<'arena> = Word<'arena>;

/// A word of `Sei`.
pub type Sei<'arena> = Word<'arena>;

/// A word of `Soi`.
pub type Soi<'arena> = Word<'arena>;

/// A word of `Tahe`.
pub type Tahe<'arena> = Word<'arena>;

/// A word of `Tehu`.
pub type Tehu<'arena> = Word<'arena>;

/// A word of `Tei`.
pub type Tei<'arena> = Word<'arena>;

/// A word of `To`.
pub type To<'arena> = Word<'arena>;

/// A word of `Toi`.
pub type Toi<'arena> = Word<'arena>;

/// A word of `Ui`.
pub type Ui<'arena> = Word<'arena>;

/// A word of `Va`.
pub type Va<'arena> = Word<'arena>;

/// A word of `Vau`.
pub type Vau<'arena> = Word<'arena>;

/// A word of `Veha`.
pub type Veha<'arena> = Word<'arena>;

/// A word of `Veho`.
pub type Veho<'arena> = Word<'arena>;

/// A word of `Vei`.
pub type Vei<'arena> = Word<'arena>;

/// A word of `Viha`.
pub type Viha<'arena> = Word<'arena>;

/// A word of `Vuho`.
pub type Vuho<'arena> = Word<'arena>;

/// A word of `Vuhu`.
pub type Vuhu<'arena> = Word<'arena>;

/// A word of `Xi`.
pub type Xi<'arena> = Word<'arena>;

/// A word of `Y`.
pub type Y<'arena> = Word<'arena>;

/// A word of `Zaho`.
pub type Zaho<'arena> = Word<'arena>;

/// A word of `Zeha`.
pub type Zeha<'arena> = Word<'arena>;

/// A word of `Zei`, which takes no indicators.
pub type Zei<'arena> = Word<'arena>;

/// A word of `Zi`.
pub type Zi<'arena> = Word<'arena>;

/// A word of `Zihe`.
pub type Zihe<'arena> = Word<'arena>;

/// A word of `Zo`, which takes neither emphasis nor indicators.
pub type Zo = Bare;

/// A word of `Zohu`.
pub type Zohu<'arena> = Word<'arena>;

/// A word of `Zoi`, which takes neither emphasis nor indicators.
pub type Zoi = Bare;

} // verus!
