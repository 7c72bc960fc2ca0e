//! The classification of words: [`Selmaho`].

use vstd::prelude::*;

pub mod classify;

verus! {

/// The classification of a word.
///
/// Most of the variants are selmaho in the strict sense: the grammatical
/// class of a cmavo. A few stand for the other kinds of Lojban words
/// (`Cmevla`, `Gismu`, `Fuhivla`, `Lujvo`), and three are technical
/// (`UnknownCmavo`, `AnyText`, `ZoiDelimiter`).
#[derive(Debug, Clone, Copy, PartialEq, Eq, Structural)]
#[allow(missing_docs)]
pub enum Selmaho {
    // regular cmavo
    A,
    Bai,
    Bahe,
    Be,
    Bei,
    Beho,
    Bihe,
    Bihi,
    Bo,
    Boi,
    Bu,
    By,
    Cai,
    Caha,
    Cei,
    Cehe,
    Co,
    Coi,
    Cu,
    Cuhe,
    Daho,
    Doi,
    Dohu,
    Fa,
    Faha,
    Faho,
    Fehe,
    Fehu,
    Fiho,
    Foi,
    Fuha,
    Fuhe,
    Fuho,
    Ga,
    Gaho,
    Gehu,
    Gi,
    Giha,
    Goi,
    Goha,
    Guha,
    I,
    Ja,
    Jai,
    Joi,
    Johi,
    Ke,
    Kei,
    Kehe,
    Ki,
    Koha,
    Ku,
    Kuhe,
    Kuho,
    La,
    Lau,
    Lahe,
    Le,
    Lehu,
    Li,
    Lihu,
    Loho,
    Lohu,
    Lu,
    Luhu,
    Mai,
    Maho,
    Me,
    Mehu,
    Moi,
    Mohe,
    Mohi,
    Na,
    Nai,
    Nahe,
    Nahu,
    Nihe,
    Niho,
    Noi,
    Nu,
    Nuha,
    Nuhi,
    Nuhu,
    Pa,
    Pehe,
    Peho,
    Pu,
    Raho,
    Roi,
    Sa,
    Se,
    Sei,
    Sehu,
    Si,
    Soi,
    Su,
    Tahe,
    Tei,
    Tehu,
    To,
    Toi,
    Tuhe,
    Tuhu,
    Ui,
    Va,
    Vau,
    Vei,
    Veha,
    Veho,
    Viha,
    Vuho,
    Vuhu,
    Xi,
    Y,
    Zaho,
    Zei,
    Zeha,
    Zi,
    Zihe,
    Zo,
    Zoi,
    Zohu,
    // experimental selmaho: those that hold only experimental cmavo
    Bahei,
    Beihe,
    Boihoi,
    Boihohu,
    Cahei,
    Ceheihoi,
    Cohai,
    Cohehohe,
    Cohuho, // treated like CO
    Cuhau,
    Dauho, // treated like UI
    Dehai,
    Dehau, // treated like UI
    Dohoi,
    Fauha, // treated like UI
    Fahoho, // treated like FAhO
    Fihoi,
    Foihe,
    Gahuhau,
    Gehuhi,
    Gihei,
    Gihoi,
    Gohoi,
    Ihau,
    Jaiha,
    Jaihi,
    Jauhu,
    Jahoi,
    Jihoi,
    Joihi,
    Johe,
    Juhau,
    Juhei,
    Juhuhi,
    Kauhai,
    Kauhu,
    Keihau,
    Keihi,
    Kehai,
    Kehei,
    Keheiha,
    Kehehau,
    Kehehu,
    Kehuhi,
    Kuhau,
    Kuhei,
    Kuhoihu,
    Kyhoi,
    Lehai,
    Lihau,
    Lihei,
    Lohai,
    Lohoi,
    Luhei,
    Mauhau,
    Mauhe,
    Mauho,
    Meihe,
    Meiho,
    Mehoi,
    Muhoi,
    Muhohu,
    Neihai,
    Noiha,
    Noihau,
    Noihahu,
    Noihi,
    Nohoi,
    Rauho,
    Rehaihe,
    Sauhu,
    Sahau,
    Sahoi,
    Seihau,
    Seiho,
    Sehehi,
    Sehoihoi,
    Sihihei,
    Sihihoi,
    Sihoi,
    Soihi,
    Sohehai,
    Sohoi,
    Taihu,
    Tauho,
    Tahoi,
    Tahuhi,
    Teihu,
    Tehoihoi,
    Toihe,
    Toiho,
    Vauhehoi,
    Vauhohoi,
    Vuhoi,
    Vyhy,
    Xauhe,
    Xauheho,
    Xauho,
    Xauhoi,
    Xauhoho,
    Xahoihahoiha, // treated like an error
    Xehau,
    Xoi,
    Xoha,
    Xohehohe,
    Xohi,
    Xuhau,
    Yhi,
    Zaihai,
    Zaihu,
    Zauhehu,
    Zeihei,
    // the dictionary writes this one ZEI'OI, with an apostrophe
    Zeihoi,
    Ziheha,
    Zihehau,
    Zihoi,
    Zoihai,
    Zoihohe,
    Zohau,
    Zohehu,
    Zohiho,
    Zohoi,
    // the other kinds of words
    // the first three are brivla, which parsers treat alike
    Gismu,
    Fuhivla,
    Lujvo,
    Cmevla,
    // technical selmaho
    /// A word that has the form of a cmavo and is in no selmaho we know.
    UnknownCmavo,
    /// Text that is no Lojban word, as between the delimiters of a `zoi` quote.
    AnyText,
    /// A delimiter of a quote. Only the lexer gives this class to a word.
    ZoiDelimiter,
}

impl Selmaho {
    /// Whether the selmaho itself is experimental: every cmavo in it is.
    /// This holds of no word that is not a cmavo, and of no technical selmaho
    /// but `UnknownCmavo`.
    pub open spec fn spec_is_fundamentally_experimental(self) -> bool {
        matches!(
            self,
            Selmaho::Bahei | Selmaho::Beihe | Selmaho::Boihoi | Selmaho::Boihohu
            | Selmaho::Cahei | Selmaho::Ceheihoi | Selmaho::Cohai | Selmaho::Cohehohe
            | Selmaho::Cohuho | Selmaho::Cuhau | Selmaho::Dauho | Selmaho::Dehai
            | Selmaho::Dehau | Selmaho::Dohoi | Selmaho::Fauha | Selmaho::Fahoho
            | Selmaho::Fihoi | Selmaho::Foihe | Selmaho::Gahuhau | Selmaho::Gehuhi
            | Selmaho::Gihei | Selmaho::Gihoi | Selmaho::Gohoi | Selmaho::Ihau | Selmaho::Jaiha
            | Selmaho::Jaihi | Selmaho::Jauhu | Selmaho::Jahoi | Selmaho::Jihoi
            | Selmaho::Joihi | Selmaho::Johe | Selmaho::Juhau | Selmaho::Juhei
            | Selmaho::Juhuhi | Selmaho::Kauhai | Selmaho::Kauhu | Selmaho::Keihau
            | Selmaho::Keihi | Selmaho::Kehai | Selmaho::Kehei | Selmaho::Keheiha
            | Selmaho::Kehehau | Selmaho::Kehehu | Selmaho::Kehuhi | Selmaho::Kuhau
            | Selmaho::Kuhei | Selmaho::Kuhoihu | Selmaho::Kyhoi | Selmaho::Lehai
            | Selmaho::Lihau | Selmaho::Lihei | Selmaho::Lohai | Selmaho::Lohoi
            | Selmaho::Luhei | Selmaho::Mauhau | Selmaho::Mauhe | Selmaho::Mauho
            | Selmaho::Meihe | Selmaho::Meiho | Selmaho::Mehoi | Selmaho::Muhoi
            | Selmaho::Muhohu | Selmaho::Neihai | Selmaho::Noiha | Selmaho::Noihau
            | Selmaho::Noihahu | Selmaho::Noihi | Selmaho::Nohoi | Selmaho::Rauho
            | Selmaho::Rehaihe | Selmaho::Sauhu | Selmaho::Sahau | Selmaho::Sahoi
            | Selmaho::Seihau | Selmaho::Seiho | Selmaho::Sehehi | Selmaho::Sehoihoi
            | Selmaho::Sihihei | Selmaho::Sihihoi | Selmaho::Sihoi | Selmaho::Soihi
            | Selmaho::Sohehai | Selmaho::Sohoi | Selmaho::Taihu | Selmaho::Tauho
            | Selmaho::Tahoi | Selmaho::Tahuhi | Selmaho::Teihu | Selmaho::Tehoihoi
            | Selmaho::Toihe | Selmaho::Toiho | Selmaho::Vauhehoi | Selmaho::Vauhohoi
            | Selmaho::Vuhoi | Selmaho::Vyhy | Selmaho::Xauhe | Selmaho::Xauheho
            | Selmaho::Xauho | Selmaho::Xauhoi | Selmaho::Xauhoho | Selmaho::Xahoihahoiha
            | Selmaho::Xehau | Selmaho::Xoi | Selmaho::Xoha | Selmaho::Xohehohe | Selmaho::Xohi
            | Selmaho::Xuhau | Selmaho::Yhi | Selmaho::Zaihai | Selmaho::Zaihu
            | Selmaho::Zauhehu | Selmaho::Zeihei | Selmaho::Zeihoi | Selmaho::Ziheha
            | Selmaho::Zihehau | Selmaho::Zihoi | Selmaho::Zoihai | Selmaho::Zoihohe
            | Selmaho::Zohau | Selmaho::Zohehu | Selmaho::Zohiho | Selmaho::Zohoi
            | Selmaho::UnknownCmavo
        )
    }

    /// Whether the selmaho is one of cmavo that the dictionary knows: not the
    /// class of another kind of word, and not a technical one.
    pub open spec fn names_cmavo(self) -> bool {
        !matches!(
            self,
            Selmaho::Gismu | Selmaho::Fuhivla | Selmaho::Lujvo | Selmaho::Cmevla
            | Selmaho::UnknownCmavo | Selmaho::AnyText | Selmaho::ZoiDelimiter
        )
    }

    /// Whether the selmaho itself is experimental; see
    /// [`Selmaho::spec_is_fundamentally_experimental`].
    #[must_use]
    pub fn is_fundamentally_experimental(self) -> (experimental: bool)
        ensures
            experimental == self.spec_is_fundamentally_experimental(),
    {
        // every variant is named, so that a new one cannot be forgotten here
        match self {
            Selmaho::Bahei | Selmaho::Beihe | Selmaho::Boihoi | Selmaho::Boihohu
            | Selmaho::Cahei | Selmaho::Ceheihoi | Selmaho::Cohai | Selmaho::Cohehohe
            | Selmaho::Cohuho | Selmaho::Cuhau | Selmaho::Dauho | Selmaho::Dehai
            | Selmaho::Dehau | Selmaho::Dohoi | Selmaho::Fauha | Selmaho::Fahoho
            | Selmaho::Fihoi | Selmaho::Foihe | Selmaho::Gahuhau | Selmaho::Gehuhi
            | Selmaho::Gihei | Selmaho::Gihoi | Selmaho::Gohoi | Selmaho::Ihau | Selmaho::Jaiha
            | Selmaho::Jaihi | Selmaho::Jauhu | Selmaho::Jahoi | Selmaho::Jihoi
            | Selmaho::Joihi | Selmaho::Johe | Selmaho::Juhau | Selmaho::Juhei
            | Selmaho::Juhuhi | Selmaho::Kauhai | Selmaho::Kauhu | Selmaho::Keihau
            | Selmaho::Keihi | Selmaho::Kehai | Selmaho::Kehei | Selmaho::Keheiha
            | Selmaho::Kehehau | Selmaho::Kehehu | Selmaho::Kehuhi | Selmaho::Kuhau
            | Selmaho::Kuhei | Selmaho::Kuhoihu | Selmaho::Kyhoi | Selmaho::Lehai
            | Selmaho::Lihau | Selmaho::Lihei | Selmaho::Lohai | Selmaho::Lohoi
            | Selmaho::Luhei | Selmaho::Mauhau | Selmaho::Mauhe | Selmaho::Mauho
            | Selmaho::Meihe | Selmaho::Meiho | Selmaho::Mehoi | Selmaho::Muhoi
            | Selmaho::Muhohu | Selmaho::Neihai | Selmaho::Noiha | Selmaho::Noihau
            | Selmaho::Noihahu | Selmaho::Noihi | Selmaho::Nohoi | Selmaho::Rauho
            | Selmaho::Rehaihe | Selmaho::Sauhu | Selmaho::Sahau | Selmaho::Sahoi
            | Selmaho::Seihau | Selmaho::Seiho | Selmaho::Sehehi | Selmaho::Sehoihoi
            | Selmaho::Sihihei | Selmaho::Sihihoi | Selmaho::Sihoi | Selmaho::Soihi
            | Selmaho::Sohehai | Selmaho::Sohoi | Selmaho::Taihu | Selmaho::Tauho
            | Selmaho::Tahoi | Selmaho::Tahuhi | Selmaho::Teihu | Selmaho::Tehoihoi
            | Selmaho::Toihe | Selmaho::Toiho | Selmaho::Vauhehoi | Selmaho::Vauhohoi
            | Selmaho::Vuhoi | Selmaho::Vyhy | Selmaho::Xauhe | Selmaho::Xauheho
            | Selmaho::Xauho | Selmaho::Xauhoi | Selmaho::Xauhoho | Selmaho::Xahoihahoiha
            | Selmaho::Xehau | Selmaho::Xoi | Selmaho::Xoha | Selmaho::Xohehohe | Selmaho::Xohi
            | Selmaho::Xuhau | Selmaho::Yhi | Selmaho::Zaihai | Selmaho::Zaihu
            | Selmaho::Zauhehu | Selmaho::Zeihei | Selmaho::Zeihoi | Selmaho::Ziheha
            | Selmaho::Zihehau | Selmaho::Zihoi | Selmaho::Zoihai | Selmaho::Zoihohe
            | Selmaho::Zohau | Selmaho::Zohehu | Selmaho::Zohiho | Selmaho::Zohoi
            | Selmaho::UnknownCmavo => true,
            Selmaho::A | Selmaho::Bai | Selmaho::Bahe | Selmaho::Be | Selmaho::Bei
            | Selmaho::Beho | Selmaho::Bihe | Selmaho::Bihi | Selmaho::Bo | Selmaho::Boi
            | Selmaho::Bu | Selmaho::By | Selmaho::Cai | Selmaho::Caha | Selmaho::Cei
            | Selmaho::Cehe | Selmaho::Co | Selmaho::Coi | Selmaho::Cu | Selmaho::Cuhe
            | Selmaho::Daho | Selmaho::Doi | Selmaho::Dohu | Selmaho::Fa | Selmaho::Faha
            | Selmaho::Faho | Selmaho::Fehe | Selmaho::Fehu | Selmaho::Fiho | Selmaho::Foi
            | Selmaho::Fuha | Selmaho::Fuhe | Selmaho::Fuho | Selmaho::Ga | Selmaho::Gaho
            | Selmaho::Gehu | Selmaho::Gi | Selmaho::Giha | Selmaho::Goi | Selmaho::Goha
            | Selmaho::Guha | Selmaho::I | Selmaho::Ja | Selmaho::Jai | Selmaho::Joi
            | Selmaho::Johi | Selmaho::Ke | Selmaho::Kei | Selmaho::Kehe | Selmaho::Ki
            | Selmaho::Koha | Selmaho::Ku | Selmaho::Kuhe | Selmaho::Kuho | Selmaho::La
            | Selmaho::Lau | Selmaho::Lahe | Selmaho::Le | Selmaho::Lehu | Selmaho::Li
            | Selmaho::Lihu | Selmaho::Loho | Selmaho::Lohu | Selmaho::Lu | Selmaho::Luhu
            | Selmaho::Mai | Selmaho::Maho | Selmaho::Me | Selmaho::Mehu | Selmaho::Moi
            | Selmaho::Mohe | Selmaho::Mohi | Selmaho::Na | Selmaho::Nai | Selmaho::Nahe
            | Selmaho::Nahu | Selmaho::Nihe | Selmaho::Niho | Selmaho::Noi | Selmaho::Nu
            | Selmaho::Nuha | Selmaho::Nuhi | Selmaho::Nuhu | Selmaho::Pa | Selmaho::Pehe
            | Selmaho::Peho | Selmaho::Pu | Selmaho::Raho | Selmaho::Roi | Selmaho::Sa
            | Selmaho::Se | Selmaho::Sei | Selmaho::Sehu | Selmaho::Si | Selmaho::Soi
            | Selmaho::Su | Selmaho::Tahe | Selmaho::Tei | Selmaho::Tehu | Selmaho::To
            | Selmaho::Toi | Selmaho::Tuhe | Selmaho::Tuhu | Selmaho::Ui | Selmaho::Va
            | Selmaho::Vau | Selmaho::Vei | Selmaho::Veha | Selmaho::Veho | Selmaho::Viha
            | Selmaho::Vuho | Selmaho::Vuhu | Selmaho::Xi | Selmaho::Y | Selmaho::Zaho
            | Selmaho::Zei | Selmaho::Zeha | Selmaho::Zi | Selmaho::Zihe | Selmaho::Zo
            | Selmaho::Zoi | Selmaho::Zohu | Selmaho::Gismu | Selmaho::Fuhivla | Selmaho::Lujvo
            | Selmaho::Cmevla | Selmaho::AnyText | Selmaho::ZoiDelimiter => false,
        }
    }
}

} // verus!
