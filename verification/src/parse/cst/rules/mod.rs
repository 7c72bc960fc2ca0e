//! The productions of the grammar, as the types of the nodes that they make.
//!
//! The comment on a type gives its production: `?` marks a part that may be
//! missing, `*` one that may repeat, `+` one that repeats at least once, `!`
//! something that must not follow, `^` a part behind a cut, and `/` stands
//! between alternatives, of which the first that matches is taken.

pub mod connectives;
pub mod helpers;
pub mod mekso;
pub mod selmaho;

use vstd::prelude::*;

use crate::lex::Token;
use crate::parse::cst::rules::connectives::{
    Ek, Gek, Gihek, Gik, Guhek, Jek, Joik, JoikEk, JoikJek,
};
use crate::parse::cst::rules::helpers::{EitherOrBoth, Separated};
use crate::parse::cst::rules::mekso::{Expression, Operator};
use crate::parse::cst::rules::selmaho::{
    Bahe, Bai, Be, Beho, Bei, Bo, Boi, Bu, By, Caha, Cai, Cehe, Cei, Cmevla, Co, Coi, Cu, Cuhe,
    Daho, Dohu, Doi, Fa, Faha, Faho, Fehe, Fehu, Fiho, Foi, Fuhe, Fuhivla, Fuho, Gehu, Gismu,
    Goha, Goi, I, Jai, Ke, Kehe, Kei, Ki, Koha, Ku, Kuho, La, Lahe, Lau, Le, Lehu, Li, Lihu,
    Loho, Lohu, Lu, Luhu, Lujvo, Mai, Me, Mehu, Mohi, Moi, Na, Nahe, Nai, Niho, Noi, Nu, Nuha,
    Nuhi, Nuhu, Pa, Pehe, Pu, Raho, Roi, Se, Sehu, Sei, Soi, Tahe, Tei, To, Toi, Tuhe, Tuhu, Ui,
    Va, Vau, Veha, Veho, Vei, Viha, Vuho, Xi, Y, Zaho, Zeha, Zi, Zihe, Zo, Zohu, Zoi,
};
use crate::span::Span;

verus! {

/// Something, and the free modifiers behind it.
#[derive(Debug)]
pub struct WithFree<'arena, Inner> {
    pub inner: Inner,
    pub frees: Frees<'arena>,
}

/// ```text
/// Frees <- Free*
/// ```
#[derive(Debug)]
pub struct Frees<'arena>(pub &'arena [Free<'arena>]);

/// The root of a syntax tree: a text.
pub type Root<'arena> = Text<'arena>;

/// ```text
/// Text <- Indicators? Frees ParagraphSeparator? Paragraphs? Faho?
/// ```
#[derive(Debug)]
pub struct Text<'arena> {
    pub initial_indicators: Option<Indicators<'arena>>,
    pub initial_frees: Frees<'arena>,
    pub initial_paragraph_separator: Option<ParagraphSeparator<'arena>>,
    pub paragraphs: Option<Paragraphs<'arena>>,
    pub faho: Option<Faho<'arena>>,
}

/// ```text
/// Paragraphs <- ParagraphList
/// ```
#[derive(Debug)]
pub struct Paragraphs<'arena>(
    pub Separated<'arena, Paragraph<'arena>, ParagraphSeparator<'arena>>,
);

/// ```text
/// Paragraph <- SentenceSeparator? ParagraphItems
/// ```
#[derive(Debug)]
pub struct Paragraph<'arena> {
    pub initial_sentence_separator: Option<SentenceSeparator<'arena>>,
    pub sentences: ParagraphItems<'arena>,
}

/// What `ParagraphItems` stands for in the grammar.
pub type ParagraphItems<'arena> = Separated<'arena, ParagraphItem<'arena>, SentenceSeparator<'arena>>;

/// ```text
/// ParagraphItem <- ParagraphItemSentences / ParagraphItemFragment / ParagraphItemEmpty
/// ```
#[derive(Debug)]
pub enum ParagraphItem<'arena> {
    Sentences(Sentences1<'arena>),
    Fragment(&'arena Fragment<'arena>),
    Empty,
}

/// ```text
/// Fragment <- FragmentEk / FragmentJek / FragmentJoik / FragmentGihek / FragmentNumber /
///     FragmentNa
/// ```
#[derive(Debug)]
pub enum Fragment<'arena> {
    Ek(WithFree<'arena, Ek<'arena>>),
    Jek(WithFree<'arena, Jek<'arena>>),
    Joik(WithFree<'arena, Joik<'arena>>),
    Gihek(WithFree<'arena, Gihek<'arena>>),
    Number(Quantifier<'arena>),
    Na(Na<'arena>, Frees<'arena>),
}

/// ```text
/// Sentences1 <- Prenex* Sentences2List
/// ```
#[derive(Debug)]
pub struct Sentences1<'arena>(
    pub &'arena [Prenex<'arena>],
    pub Separated<'arena, Sentences2<'arena>, ConnectedSentenceSeparator<'arena>>,
);

/// What `Sentences2` stands for in the grammar.
pub type Sentences2<'arena> = Separated<'arena, Sentences3<'arena>, CloseSentenceSeparator<'arena>>;

/// ```text
/// Sentences3 <- Sentences3Grouped / Sentences3Single
/// ```
#[derive(Debug)]
pub enum Sentences3<'arena> {
    Grouped(
        Option<TagWords<'arena>>,
        WithFree<'arena, Tuhe<'arena>>,
        Paragraphs<'arena>,
        Option<Tuhu<'arena>>,
        Frees<'arena>,
    ),
    Single(&'arena Sentence<'arena>),
}

/// ```text
/// ParagraphSeparator <- Niho+ Frees
/// ```
#[derive(Debug)]
pub struct ParagraphSeparator<'arena>(pub &'arena [Niho<'arena>], pub Frees<'arena>);

/// ```text
/// SentenceSeparator <- I !Bu Frees
/// ```
#[derive(Debug)]
pub struct SentenceSeparator<'arena>(pub I<'arena>, pub Frees<'arena>);

/// ```text
/// ConnectedSentenceSeparator <- I JoikJek Frees
/// ```
#[derive(Debug)]
pub struct ConnectedSentenceSeparator<'arena>(
    pub I<'arena>,
    pub JoikJek<'arena>,
    pub Frees<'arena>,
);

/// ```text
/// CloseSentenceSeparator <- I JoikJek? TagWords? Bo Frees
/// ```
#[derive(Debug)]
pub struct CloseSentenceSeparator<'arena>(
    pub I<'arena>,
    pub Option<JoikJek<'arena>>,
    pub Option<TagWords<'arena>>,
    pub Bo<'arena>,
    pub Frees<'arena>,
);

/// ```text
/// Sentence <- Args SentenceTail?
/// ```
#[derive(Debug)]
pub struct Sentence<'arena> {
    pub before_args: Args<'arena>,
    pub tail: Option<SentenceTail<'arena>>,
}

/// ```text
/// SentenceTail <- Cu? Frees SentenceTail1
/// ```
#[derive(Debug)]
pub struct SentenceTail<'arena>(
    pub Option<Cu<'arena>>,
    pub Frees<'arena>,
    pub SentenceTail1<'arena>,
);

/// ```text
/// SentenceTail1 <- SentenceTail2 SentenceTail1After?
/// ```
#[derive(Debug)]
pub struct SentenceTail1<'arena>(
    pub SentenceTail2<'arena>,
    pub Option<SentenceTail1After<'arena>>,
);

/// ```text
/// SentenceTail1After <- Gihek TagWords? Ke Frees SentenceTail1 Kehe? Frees TailArgs
/// ```
#[derive(Debug)]
pub struct SentenceTail1After<'arena>(
    pub Gihek<'arena>,
    pub Option<TagWords<'arena>>,
    pub Ke<'arena>,
    pub Frees<'arena>,
    pub &'arena SentenceTail1<'arena>,
    pub Option<Kehe<'arena>>,
    pub Frees<'arena>,
    pub TailArgs<'arena>,
);

/// ```text
/// SentenceTail2 <- SentenceTail3 SentenceTail2After?
/// ```
#[derive(Debug)]
pub struct SentenceTail2<'arena>(
    pub &'arena SentenceTail3<'arena>,
    pub Option<SentenceTail2After<'arena>>,
);

/// ```text
/// SentenceTail2Connective <- Gihek !TagKe Frees
/// ```
#[derive(Debug)]
pub struct SentenceTail2Connective<'arena>(pub Gihek<'arena>, pub Frees<'arena>);

/// ```text
/// SentenceTail2After <- SentenceTail2Next+ TailArgs
/// ```
#[derive(Debug)]
pub struct SentenceTail2After<'arena>(
    pub &'arena [(SentenceTail2Connective<'arena>, SentenceTail3<'arena>)],
    pub TailArgs<'arena>,
);

/// ```text
/// SentenceTail3 <- SentenceTail4 SentenceTail3After?
/// ```
#[derive(Debug)]
pub struct SentenceTail3<'arena>(
    pub &'arena SentenceTail4<'arena>,
    pub Option<SentenceTail3After<'arena>>,
);

/// What `SentenceTail3Connective` stands for in the grammar.
pub type SentenceTail3Connective<'arena> = (Gihek<'arena>, Option<TagWords<'arena>>, Bo<'arena>, Frees<'arena>);

/// ```text
/// SentenceTail3After <- SentenceTail3Next+ TailArgs
/// ```
#[derive(Debug)]
pub struct SentenceTail3After<'arena>(
    pub &'arena [(SentenceTail3Connective<'arena>, SentenceTail4<'arena>)],
    pub TailArgs<'arena>,
);

/// ```text
/// SentenceTail4 <- SentenceTail4Single / SentenceTail4Parenthesized /
///     SentenceTail4Connected
/// ```
#[derive(Debug)]
pub enum SentenceTail4<'arena> {
    Single(Selbri<'arena>, TailArgs<'arena>),
    Parenthesized(
        &'arena [WithFree<'arena, Na<'arena>>],
        Option<TagWords<'arena>>,
        WithFree<'arena, Ke<'arena>>,
        &'arena GekSentence<'arena>,
        Option<Kehe<'arena>>,
        Frees<'arena>,
    ),
    Connected(&'arena GekSentence<'arena>),
}

/// ```text
/// GekSentence <- Na Frees* Gek Subsentence Gik Subsentence TailArgs
/// ```
#[derive(Debug)]
pub struct GekSentence<'arena>(
    pub &'arena [WithFree<'arena, Na<'arena>>],
    pub Gek<'arena>,
    pub Subsentence<'arena>,
    pub Gik<'arena>,
    pub Subsentence<'arena>,
    pub TailArgs<'arena>,
);

/// ```text
/// Subsentence <- Prenex* Args SentenceTail
/// ```
#[derive(Debug)]
pub struct Subsentence<'arena>(
    pub &'arena [Prenex<'arena>],
    pub Args<'arena>,
    pub SentenceTail<'arena>,
);

/// ```text
/// Args <- Arg*
/// ```
#[derive(Debug)]
pub struct Args<'arena>(pub &'arena [Arg<'arena>]);

/// ```text
/// TailArgs <- Args Vau? Frees
/// ```
#[derive(Debug)]
pub struct TailArgs<'arena>(pub Args<'arena>, pub Option<Vau<'arena>>, pub Frees<'arena>);

/// ```text
/// Prenex <- Args Zohu Frees
/// ```
#[derive(Debug)]
pub struct Prenex<'arena> {
    pub terms: Args<'arena>,
    pub zohu: Zohu<'arena>,
    pub frees: Frees<'arena>,
}

/// ```text
/// Arg <- Arg1 ArgConnectedPost*
/// ```
#[derive(Debug)]
pub struct Arg<'arena>(
    pub Arg1<'arena>,
    pub &'arena [SumtiLikeConnectedPost<'arena, Arg1<'arena>, Self>],
);

/// What `Arg1` stands for in the grammar.
pub type Arg1<'arena> = Separated<'arena, Arg2<'arena>, PeheConnective<'arena>>;

/// ```text
/// PeheConnective <- Pehe Frees JoikJek
/// ```
#[derive(Debug)]
pub struct PeheConnective<'arena>(pub WithFree<'arena, Pehe<'arena>>, pub JoikJek<'arena>);

/// What `Arg2` stands for in the grammar.
pub type Arg2<'arena> = Separated<'arena, Arg3<'arena>, WithFree<'arena, Cehe<'arena>>>;

/// ```text
/// Arg3 <- Arg3Tag / Arg3Sumti / Arg3Naku / Arg3Termset
/// ```
#[derive(Debug)]
pub enum Arg3<'arena> {
    Tag(Tag<'arena>),
    Sumti {
        fa: Option<WithFree<'arena, Fa<'arena>>>,
        sumti: Sumti<'arena>,
    },
    Naku(Na<'arena>, Ku<'arena>, Frees<'arena>),
    Termset(&'arena Termset<'arena>),
}

/// ```text
/// Termset <- TermsetGek / TermsetNuhiGi / TermsetNuhi
/// ```
#[derive(Debug)]
pub enum Termset<'arena> {
    Gek(Gek<'arena>, Args<'arena>, Gik<'arena>, Args<'arena>),
    NuhiGi(
        WithFree<'arena, Nuhi<'arena>>,
        Gek<'arena>,
        Args<'arena>,
        Option<Nuhu<'arena>>,
        Frees<'arena>,
        Gik<'arena>,
        Args<'arena>,
        Option<Nuhu<'arena>>,
        Frees<'arena>,
    ),
    Nuhi(WithFree<'arena, Nuhi<'arena>>, Args<'arena>, Option<Nuhu<'arena>>, Frees<'arena>),
}

/// ```text
/// Selbri <- SelbriBefore* Selbri1
/// ```
#[derive(Debug)]
pub struct Selbri<'arena> {
    pub before: &'arena [SelbriBefore<'arena>],
    pub components: Selbri1<'arena>,
}

/// ```text
/// SelbriBefore <- SelbriBeforeNa / SelbriBeforeTag
/// ```
#[derive(Debug)]
pub enum SelbriBefore<'arena> {
    Na(WithFree<'arena, Na<'arena>>),
    Tag(TagWords<'arena>),
}

/// ```text
/// Selbri1 <- Selbri2List
/// ```
#[derive(Debug)]
pub struct Selbri1<'arena>(pub Separated<'arena, Selbri2<'arena>, WithFree<'arena, Co<'arena>>>);

/// ```text
/// Selbri2 <- Selbri3+
/// ```
#[derive(Debug)]
pub struct Selbri2<'arena>(pub &'arena [Selbri3<'arena>]);

/// ```text
/// Selbri3 <- Selbri4 Selbri3ConnectedPost*
/// ```
#[derive(Debug)]
pub struct Selbri3<'arena>(pub Selbri4<'arena>, pub &'arena [Selbri3ConnectedPost<'arena>]);

/// What `Selbri3ConnectedPost` stands for in the grammar.
pub type Selbri3ConnectedPost<'arena> = SelbriLikeConnectedPost<'arena, Selbri4<'arena>, Selbri2<'arena>>;

/// A connective and what it ties to the selbri before it: the next one as
/// it stands, or a group between `ke` and `ke'e`.
#[derive(Debug)]
pub enum SelbriLikeConnectedPost<'arena, Normal, Parenthesized> {
    Normal(JoikJek<'arena>, Normal),
    Parenthesized(
        JoikJek<'arena>,
        Option<TagWords<'arena>>,
        WithFree<'arena, Ke<'arena>>,
        Parenthesized,
        Option<Kehe<'arena>>,
        Frees<'arena>,
    ),
}

/// ```text
/// Selbri4 <- Selbri5List
/// ```
#[derive(Debug)]
pub struct Selbri4<'arena>(
    pub Separated<'arena, Selbri5<'arena>, (JoikJek<'arena>, Option<TagWords<'arena>>, Bo<'arena>, Frees<'arena>)>,
);

/// ```text
/// Selbri5 <- SelbriGuhek* Selbri6
/// ```
#[derive(Debug)]
pub struct Selbri5<'arena>(
    pub &'arena [NaheGuhekTGik<'arena, Selbri<'arena>>],
    pub Selbri6<'arena>,
);

/// The first half of a forethought connection: the connective, what it
/// connects, and the `gi` that ends that.
#[derive(Debug)]
pub struct NaheGuhekTGik<'arena, T>(
    pub Option<Nahe<'arena>>,
    pub Frees<'arena>,
    pub Guhek<'arena>,
    pub T,
    pub Gik<'arena>,
);

/// ```text
/// Selbri6 <- TanruUnitList
/// ```
#[derive(Debug)]
pub struct Selbri6<'arena>(
    pub Separated<'arena, TanruUnit<'arena>, WithFree<'arena, Bo<'arena>>>,
);

/// ```text
/// TanruUnit <- TanruUnit1List
/// ```
#[derive(Debug)]
pub struct TanruUnit<'arena>(
    pub Separated<'arena, TanruUnit1<'arena>, WithFree<'arena, Cei<'arena>>>,
);

/// ```text
/// TanruUnit1 <- BeforeTanruUnit* TanruUnit2 BoundArguments?
/// ```
#[derive(Debug)]
pub struct TanruUnit1<'arena> {
    pub before: &'arena [BeforeTanruUnit<'arena>],
    pub inner: TanruUnit2<'arena>,
    pub bound_arguments: Option<BoundArguments<'arena>>,
}

/// ```text
/// BeforeTanruUnit <- BeforeTanruUnitJai / BeforeTanruUnitNahe / BeforeTanruUnitSe
/// ```
#[derive(Debug)]
pub enum BeforeTanruUnit<'arena> {
    Jai {
        jai: WithFree<'arena, Jai<'arena>>,
        tag: Option<TagWords<'arena>>,
    },
    Nahe(WithFree<'arena, Nahe<'arena>>),
    Se(WithFree<'arena, Se<'arena>>),
}

/// ```text
/// BoundArguments <- Be Frees ArgList Beho? Frees
/// ```
#[derive(Debug)]
pub struct BoundArguments<'arena> {
    pub be: WithFree<'arena, Be<'arena>>,
    pub args: Separated<'arena, Arg<'arena>, WithFree<'arena, Bei<'arena>>>,
    pub beho: Option<Beho<'arena>>,
    pub frees: Frees<'arena>,
}

/// ```text
/// TanruUnit2 <- TanruUnit2GroupedTanru / TanruUnit2Gismu / TanruUnit2Lujvo /
///     TanruUnit2Fuhivla / TanruUnit2Goha / TanruUnit2Moi / TanruUnit2Me / TanruUnit2Nu /
///     TanruUnit2Nuha
/// ```
#[derive(Debug)]
pub enum TanruUnit2<'arena> {
    GroupedTanru {
        ke: WithFree<'arena, Ke<'arena>>,
        group: Selbri2<'arena>,
        kehe: Option<Kehe<'arena>>,
        frees: Frees<'arena>,
    },
    Gismu(WithFree<'arena, Gismu<'arena>>),
    Lujvo(WithFree<'arena, Lujvo<'arena>>),
    Fuhivla(WithFree<'arena, Fuhivla<'arena>>),
    Goha {
        goha: Goha<'arena>,
        raho: Option<Raho<'arena>>,
        frees: Frees<'arena>,
    },
    Moi(MiscNumbers<'arena>, Moi<'arena>, Frees<'arena>),
    Me {
        me: WithFree<'arena, Me<'arena>>,
        inner: Sumti<'arena>,
        mehu: Option<Mehu<'arena>>,
        frees: Frees<'arena>,
        moi: Option<WithFree<'arena, Moi<'arena>>>,
    },
    Nu {
        nus: Separated<'arena, (Nu<'arena>, Option<Nai<'arena>>, Frees<'arena>), JoikJek<'arena>>,
        inner: &'arena Subsentence<'arena>,
        kei: Option<Kei<'arena>>,
        frees: Frees<'arena>,
    },
    Nuha {
        nuha: WithFree<'arena, Nuha<'arena>>,
        operator: Operator<'arena>,
    },
}

/// ```text
/// Tag <- TagWords !Gik !Ke TagValue?
/// ```
#[derive(Debug)]
pub struct Tag<'arena> {
    pub words: TagWords<'arena>,
    pub value: Option<TagValue<'arena>>,
}

/// ```text
/// TagValue <- TagValueKu / TagValueSumti
/// ```
#[derive(Debug)]
pub enum TagValue<'arena> {
    Ku(WithFree<'arena, Ku<'arena>>),
    Sumti(Sumti<'arena>),
}

/// What `TagWords` stands for in the grammar.
pub type TagWords<'arena> = Separated<'arena, TagWord<'arena>, JoikJek<'arena>>;

/// ```text
/// TagWord <- TagWordBai / TagWordTimeSpaceCaha / TagWordKi / TagWordCuhe /
///     TagWordConverted
/// ```
#[derive(Debug)]
pub enum TagWord<'arena> {
    Bai {
        nahe: Option<Nahe<'arena>>,
        se: Option<Se<'arena>>,
        bai: Bai<'arena>,
        nai: Option<Nai<'arena>>,
        ki: Option<Ki<'arena>>,
        frees: Frees<'arena>,
    },
    TimeSpaceCaha {
        nahe: Option<Nahe<'arena>>,
        inner: &'arena [TimeSpaceCaha<'arena>],
        ki: Option<Ki<'arena>>,
        frees: Frees<'arena>,
    },
    Ki(Ki<'arena>, Frees<'arena>),
    Cuhe(Cuhe<'arena>, Frees<'arena>),
    Converted(
        WithFree<'arena, Fiho<'arena>>,
        Selbri<'arena>,
        Option<Fehu<'arena>>,
        Frees<'arena>,
    ),
}

/// ```text
/// TimeSpaceCaha <- TimeSpaceCahaTime / TimeSpaceCahaSpace / TimeSpaceCahaCaha
/// ```
#[derive(Debug)]
pub enum TimeSpaceCaha<'arena> {
    Time(&'arena Time<'arena>),
    Space(&'arena Space<'arena>),
    Caha(Caha<'arena>),
}

/// ```text
/// Time <- (Zi? TimeOffset* TimeDuration? IntervalProperty*) that takes a token
/// ```
#[derive(Debug)]
pub struct Time<'arena> {
    pub zi: Option<Zi<'arena>>,
    pub offset: &'arena [TimeOffset<'arena>],
    pub duration: Option<TimeDuration<'arena>>,
    pub properties: &'arena [TimeIntervalProperty<'arena>],
}

/// ```text
/// TimeOffset <- Pu Nai? Zi?
/// ```
#[derive(Debug)]
pub struct TimeOffset<'arena> {
    pub pu: Pu<'arena>,
    pub nai: Option<Nai<'arena>>,
    pub zi: Option<Zi<'arena>>,
}

/// ```text
/// TimeDuration <- Zeha PuNai?
/// ```
#[derive(Debug)]
pub struct TimeDuration<'arena> {
    pub zeha: Zeha<'arena>,
    pub anchor: Option<(Pu<'arena>, Option<Nai<'arena>>)>,
}

/// ```text
/// IntervalProperty <- IntervalPropertyRoi / IntervalPropertyTahe / IntervalPropertyZaho
/// ```
#[derive(Debug)]
pub enum IntervalProperty<'arena> {
    Roi(Number<'arena>, Roi<'arena>, Option<Nai<'arena>>),
    Tahe(Tahe<'arena>, Option<Nai<'arena>>),
    Zaho(Zaho<'arena>, Option<Nai<'arena>>),
}

/// What `TimeIntervalProperty` stands for in the grammar.
pub type TimeIntervalProperty<'arena> = IntervalProperty<'arena>;

/// ```text
/// Space <- (Va? SpaceOffset* SpaceInterval? SpaceMotion?) that takes a token
/// ```
#[derive(Debug)]
pub struct Space<'arena> {
    pub va: Option<Va<'arena>>,
    pub offset: &'arena [SpaceOffset<'arena>],
    pub interval: Option<SpaceInterval<'arena>>,
    pub motion: Option<SpaceMotion<'arena>>,
}

/// ```text
/// SpaceOffset <- Faha Nai? Va?
/// ```
#[derive(Debug)]
pub struct SpaceOffset<'arena>(pub Faha<'arena>, pub Option<Nai<'arena>>, pub Option<Va<'arena>>);

/// ```text
/// SpaceInterval <- SpaceIntervalInterval / SpaceIntervalProperties
/// ```
#[derive(Debug)]
pub enum SpaceInterval<'arena> {
    Interval {
        interval: EitherOrBoth<Veha<'arena>, Viha<'arena>>,
        direction: Option<(Faha<'arena>, Option<Nai<'arena>>)>,
        properties: &'arena [SpaceIntervalProperty<'arena>],
    },
    Properties(&'arena [SpaceIntervalProperty<'arena>]),
}

/// ```text
/// SpaceIntervalProperty <- Fehe IntervalProperty
/// ```
#[derive(Debug)]
pub struct SpaceIntervalProperty<'arena>(pub Fehe<'arena>, pub IntervalProperty<'arena>);

/// ```text
/// SpaceMotion <- Mohi SpaceOffset
/// ```
#[derive(Debug)]
pub struct SpaceMotion<'arena> {
    pub mohi: Mohi<'arena>,
    pub offset: SpaceOffset<'arena>,
}

/// ```text
/// Sumti <- Sumti1 VuhoRelative?
/// ```
#[derive(Debug)]
pub struct Sumti<'arena> {
    pub inner: Sumti1<'arena>,
    pub vuho_relative: Option<VuhoRelative<'arena>>,
}

/// ```text
/// Sumti1 <- Sumti2 SumtiConnectedPost*
/// ```
#[derive(Debug)]
pub struct Sumti1<'arena>(
    pub Sumti2<'arena>,
    pub &'arena [SumtiLikeConnectedPost<'arena, Sumti2<'arena>, Sumti<'arena>>],
);

/// A connective and what it ties to the sumti before it: the next one as
/// it stands, or a group between `ke` and `ke'e`.
#[derive(Debug)]
pub enum SumtiLikeConnectedPost<'arena, Normal, Parenthesized> {
    Normal(JoikEk<'arena>, Normal),
    Grouped(
        JoikEk<'arena>,
        Option<TagWords<'arena>>,
        WithFree<'arena, Ke<'arena>>,
        Parenthesized,
        Option<Kehe<'arena>>,
        Frees<'arena>,
    ),
}

/// What `Sumti2` stands for in the grammar.
pub type Sumti2<'arena> = Separated<'arena, Sumti3<'arena>, (JoikEk<'arena>, Option<TagWords<'arena>>, Bo<'arena>, Frees<'arena>)>;

/// ```text
/// VuhoRelative <- Vuho Frees RelativeClauses
/// ```
#[derive(Debug)]
pub struct VuhoRelative<'arena> {
    pub vuho: WithFree<'arena, Vuho<'arena>>,
    pub relative_clauses: RelativeClauses<'arena>,
}

/// ```text
/// RelativeClauses <- RelativeClauseList
/// ```
#[derive(Debug)]
pub struct RelativeClauses<'arena>(
    pub Separated<'arena, RelativeClause<'arena>, WithFree<'arena, Zihe<'arena>>>,
);

/// ```text
/// RelativeClause <- RelativeClauseGoi / RelativeClauseNoi
/// ```
#[derive(Debug)]
pub enum RelativeClause<'arena> {
    Goi(GoiRelativeClause<'arena>),
    Noi(NoiRelativeClause<'arena>),
}

/// ```text
/// GoiRelativeClause <- Goi Frees Arg Gehu? Frees
/// ```
#[derive(Debug)]
pub struct GoiRelativeClause<'arena> {
    pub goi: WithFree<'arena, Goi<'arena>>,
    pub inner: Arg<'arena>,
    pub gehu: Option<Gehu<'arena>>,
    pub frees: Frees<'arena>,
}

/// ```text
/// NoiRelativeClause <- Noi Frees Subsentence Kuho? Frees
/// ```
#[derive(Debug)]
pub struct NoiRelativeClause<'arena> {
    pub noi: WithFree<'arena, Noi<'arena>>,
    pub inner: &'arena Subsentence<'arena>,
    pub kuho: Option<Kuho<'arena>>,
    pub frees: Frees<'arena>,
}

/// ```text
/// Sumti3 <- Sumti3ConnectedPre* Sumti4
/// ```
#[derive(Debug)]
pub struct Sumti3<'arena>(pub &'arena [Sumti3ConnectedPre<'arena>], pub Sumti4<'arena>);

/// ```text
/// Sumti3ConnectedPre <- Gek Sumti Gik
/// ```
#[derive(Debug)]
pub struct Sumti3ConnectedPre<'arena>(pub Gek<'arena>, pub Sumti<'arena>, pub Gik<'arena>);

/// ```text
/// Sumti4 <- Sumti4Normal / Sumti4SelbriShorthand
/// ```
#[derive(Debug)]
pub enum Sumti4<'arena> {
    Normal {
        quantifier: Option<Quantifier<'arena>>,
        inner: &'arena SumtiComponent<'arena>,
        relative_clauses: Option<RelativeClauses<'arena>>,
    },
    SelbriShorthand {
        quantifier: Quantifier<'arena>,
        inner: Selbri<'arena>,
        ku: Option<Ku<'arena>>,
        frees: Frees<'arena>,
        relative_clauses: Option<RelativeClauses<'arena>>,
    },
}

/// ```text
/// Quantifier <- QuantifierMekso / QuantifierNumber
/// ```
#[derive(Debug)]
pub enum Quantifier<'arena> {
    Mekso(WithFree<'arena, Vei<'arena>>, Expression<'arena>, Option<Veho<'arena>>, Frees<'arena>),
    Number(Number<'arena>, Option<Boi<'arena>>, Frees<'arena>),
}

/// ```text
/// Number <- Pa NumberRest*
/// ```
#[derive(Debug)]
pub struct Number<'arena> {
    pub first: Pa<'arena>,
    pub rest: &'arena [NumberRest<'arena>],
}

/// ```text
/// NumberRest <- NumberRestPa / NumberRestLerfu
/// ```
#[derive(Debug)]
pub enum NumberRest<'arena> {
    Pa(Pa<'arena>),
    Lerfu(LerfuWord<'arena>),
}

/// ```text
/// LerfuString <- LerfuWord NumberRest*
/// ```
#[derive(Debug)]
pub struct LerfuString<'arena> {
    pub first: LerfuWord<'arena>,
    pub rest: &'arena [NumberRest<'arena>],
}

/// ```text
/// MiscNumbers <- NumberRest+
/// ```
#[derive(Debug)]
pub struct MiscNumbers<'arena>(pub &'arena [NumberRest<'arena>]);

/// ```text
/// LerfuWord <- LerfuWordLerfu / LerfuWordLau / LerfuWordTei
/// ```
#[derive(Debug)]
pub enum LerfuWord<'arena> {
    Lerfu(Lerfu<'arena>),
    Lau {
        lau: Lau<'arena>,
        lerfu: Lerfu<'arena>,
    },
    Tei {
        tei: Tei<'arena>,
        inner: &'arena LerfuString<'arena>,
        foi: Foi<'arena>,
    },
}

/// ```text
/// Lerfu <- LerfuBu / LerfuBy
/// ```
#[derive(Debug)]
pub enum Lerfu<'arena> {
    Bu(Option<Bahe>, BuLerfu, &'arena [Bu], &'arena [Indicators<'arena>]),
    By(By<'arena>),
}

/// The word that `bu` makes a letter of.
#[derive(Debug)]
pub struct BuLerfu(pub Token);

/// What `SumtiComponent` stands for in the grammar.
pub type SumtiComponent<'arena> = WithFree<'arena, SumtiComponent1<'arena>>;

/// ```text
/// SumtiComponent1 <- SumtiComponent1Koha / SumtiComponent1Gadri / SumtiComponent1La /
///     SumtiComponent1Lohu / SumtiComponent1Lu / SumtiComponent1Modified /
///     SumtiComponent1LerfuString / SumtiComponent1Zo / SumtiComponent1Zoi /
///     SumtiComponent1Li
/// ```
#[derive(Debug)]
pub enum SumtiComponent1<'arena> {
    Koha(Koha<'arena>),
    Gadri(&'arena GadriSumti<'arena>),
    La(LaSumti<'arena>),
    Lohu(LohuSumti<'arena>),
    Lu(LuSumti<'arena>),
    Modified(ModifiedSumti<'arena>),
    LerfuString(LerfuString<'arena>, Option<Boi<'arena>>),
    Zo(ZoSumti),
    Zoi(ZoiSumti),
    Li(WithFree<'arena, Li<'arena>>, Expression<'arena>, Option<Loho<'arena>>),
}

/// ```text
/// LohuSumti <- Lohu ^QuotedWords
/// ```
#[derive(Debug)]
pub struct LohuSumti<'arena> {
    pub lohu: Lohu,
    pub inner: &'arena [Token],
    pub lehu: Lehu<'arena>,
}

/// ```text
/// LuSumti <- Lu Text Lihu?
/// ```
#[derive(Debug)]
pub struct LuSumti<'arena> {
    pub lu: Lu,
    pub text: Text<'arena>,
    pub lihu: Option<Lihu<'arena>>,
}

/// ```text
/// ModifiedSumti <- SumtiModifierWithFree RelativeClauses? Sumti Luhu?
/// ```
#[derive(Debug)]
pub struct ModifiedSumti<'arena> {
    pub modifier: WithFree<'arena, SumtiModifier<'arena>>,
    pub relative_clauses: Option<RelativeClauses<'arena>>,
    pub sumti: Sumti<'arena>,
    pub luhu: Option<Luhu<'arena>>,
}

/// ```text
/// SumtiModifier <- SumtiModifierLahe / SumtiModifierNaheBo
/// ```
#[derive(Debug)]
pub enum SumtiModifier<'arena> {
    Lahe(Lahe<'arena>),
    NaheBo(Nahe<'arena>, Bo<'arena>),
}

/// ```text
/// GadriSumti <- GadriWithFree GadriSumtiPre GadriSumtiContents Ku?
/// ```
#[derive(Debug)]
pub struct GadriSumti<'arena> {
    pub gadri: WithFree<'arena, Gadri<'arena>>,
    pub pre: GadriSumtiPre<'arena>,
    pub contents: GadriSumtiContents<'arena>,
    pub ku: Option<Ku<'arena>>,
}

/// ```text
/// Gadri <- GadriLe / GadriLa
/// ```
#[derive(Debug)]
pub enum Gadri<'arena> {
    Le(Le<'arena>),
    La(La<'arena>),
}

/// ```text
/// GadriSumtiPre <- GadriSumtiPreSimple / GadriSumtiPreRelative / GadriSumtiPreFullPre
/// ```
#[derive(Debug)]
pub enum GadriSumtiPre<'arena> {
    Simple {
        pe_shorthand: Option<&'arena SumtiComponent<'arena>>,
        relative_clauses: Option<RelativeClauses<'arena>>,
    },
    Relative {
        relative_clauses: RelativeClauses<'arena>,
    },
    FullPre {
        pe_shorthand: &'arena Sumti<'arena>,
    },
}

/// ```text
/// GadriSumtiContents <- GadriSumtiContentsSelbri / GadriSumtiContentsSumti
/// ```
#[derive(Debug)]
pub enum GadriSumtiContents<'arena> {
    Selbri(Option<Quantifier<'arena>>, Selbri<'arena>, Option<RelativeClauses<'arena>>),
    Sumti(Quantifier<'arena>, Sumti<'arena>),
}

/// ```text
/// LaSumti <- La Cmevla+
/// ```
#[derive(Debug)]
pub struct LaSumti<'arena> {
    pub la: La<'arena>,
    pub inner: &'arena [Cmevla<'arena>],
}

/// ```text
/// ZoSumti <- Zo token
/// ```
#[derive(Debug)]
pub struct ZoSumti {
    pub zo: Zo,
    pub quoted: Token,
}

/// ```text
/// ZoiSumti <- Zoi ZoiDelimiter ZoiText ZoiDelimiter
/// ```
#[derive(Debug)]
pub struct ZoiSumti {
    pub zoi: Zoi,
    pub starting_delimiter: ZoiDelimiter,
    pub text: ZoiText,
    pub ending_delimiter: ZoiDelimiter,
}

/// ```text
/// ZoiDelimiter <- token
/// ```
#[derive(Debug)]
pub struct ZoiDelimiter(pub Span);

/// ```text
/// ZoiText <- token
/// ```
#[derive(Debug)]
pub struct ZoiText(pub Span);

/// ```text
/// Free <- FreeSei / FreeSoi / FreeVocative / FreeMai / FreeTo / FreeXi
/// ```
#[derive(Debug)]
pub enum Free<'arena> {
    Sei(
        WithFree<'arena, Sei<'arena>>,
        Args<'arena>,
        Option<SeiTail<'arena>>,
        Option<WithFree<'arena, Sehu<'arena>>>,
    ),
    Soi(
        WithFree<'arena, Soi<'arena>>,
        &'arena (Sumti<'arena>, Option<Sumti<'arena>>),
        Option<Sehu<'arena>>,
    ),
    Vocative(Vocative<'arena>),
    Mai(MiscNumbers<'arena>, Mai<'arena>),
    To(To<'arena>, Text<'arena>, Option<Toi<'arena>>),
    Xi(Subscript<'arena>),
}

/// ```text
/// Vocative <- VocativeWords RelativeClauses? VocativeValue RelativeClauses? Dohu?
/// ```
#[derive(Debug)]
pub struct Vocative<'arena>(
    pub VocativeWords<'arena>,
    pub Option<RelativeClauses<'arena>>,
    pub VocativeValue<'arena>,
    pub Option<RelativeClauses<'arena>>,
    pub Option<Dohu<'arena>>,
);

/// ```text
/// SeiTail <- Cu? Frees Selbri
/// ```
#[derive(Debug)]
pub struct SeiTail<'arena>(pub Option<Cu<'arena>>, pub Frees<'arena>, pub Selbri<'arena>);

/// ```text
/// VocativeWords <- VocativeWordsCoi / VocativeWordsDoi
/// ```
#[derive(Debug)]
pub enum VocativeWords<'arena> {
    Coi(&'arena [(Coi<'arena>, Option<Nai<'arena>>)], Option<Doi<'arena>>),
    Doi(Doi<'arena>),
}

/// ```text
/// VocativeValue <- VocativeValueSelbri / VocativeValueCmevla / VocativeValueSumti
/// ```
#[derive(Debug)]
pub enum VocativeValue<'arena> {
    Selbri(&'arena Selbri<'arena>),
    Cmevla(&'arena [Cmevla<'arena>]),
    Sumti(Option<&'arena Sumti<'arena>>),
}

/// ```text
/// Subscript <- Xi Frees SubscriptValueWithFree
/// ```
#[derive(Debug)]
pub struct Subscript<'arena>(
    pub WithFree<'arena, Xi<'arena>>,
    pub WithFree<'arena, SubscriptValue<'arena>>,
);

/// ```text
/// SubscriptValue <- SubscriptValueMekso / SubscriptValueNumber
/// ```
#[derive(Debug)]
pub enum SubscriptValue<'arena> {
    Mekso(WithFree<'arena, Vei<'arena>>, Expression<'arena>, Option<Veho<'arena>>, Frees<'arena>),
    Number(MiscNumbers<'arena>, Option<Boi<'arena>>, Frees<'arena>),
}

/// ```text
/// Indicators <- Fuhe? Indicator+
/// ```
#[derive(Debug)]
pub struct Indicators<'arena>(pub Option<Fuhe<'arena>>, pub &'arena [Indicator<'arena>]);

/// ```text
/// Indicator <- IndicatorChoice !Bu
/// ```
#[derive(Debug)]
pub enum Indicator<'arena> {
    Ui(Ui<'arena>),
    Cai(Cai<'arena>),
    Nai(Nai<'arena>),
    Daho(Daho<'arena>),
    Fuho(Fuho<'arena>),
    Y(Y<'arena>),
}

} // verus!
