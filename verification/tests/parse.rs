use sneturfahi::lex::{lex, Selmaho, Token};
use sneturfahi::parse::cst::rules::{ParagraphItem, Sentences3};
use sneturfahi::parse::cst::parser::parse_word;
use sneturfahi::parse::error::ErrorKind;
use sneturfahi::parse::tree_node::{end_location, experimental, start_location, TreeNode};
use sneturfahi::parse::{Arena, Cst, Error};

fn lex_all(input: &str) -> Vec<Token> {
    tokens(input)
}

fn tokens(input: &str) -> Vec<Token> {
    let mut lexer = lex(input);
    let mut out = Vec::new();
    while let Some(token) = lexer.next() {
        out.push(token.expect("lexing failed"));
    }
    out
}

fn assert_parses(sentences: &[&str]) {
    for sentence in sentences {
        let arena = Arena::new();
        let tokens = tokens(sentence);
        if let Err(error) = Cst::parse(&tokens, &arena) {
            panic!("{sentence:?} does not parse: {error:?}");
        }
    }
}

#[test]
fn assert_parse_5_1() {
    assert_parses(&[
        "do mamta mi",
        "do patfu mi",
        "ta bloti",
        "ta brablo",
        "ta blotrskunri",
    ]);
}

#[test]
fn assert_parse_5_2() {
    assert_parses(&[
        "tu pelnimre tricu",
        "la djan barda nanla",
        "mi sutra bajra",
        "mi sutra",
        "ta klama jubme",
        "do barda prenu",
        "do cmalu prenu",
    ]);
}

#[test]
fn assert_parse_5_3() {
    assert_parses(&[
        "ta cmalu nixli bo ckule",
        "ta cmalu bo nixli ckule",
        "ta cmalu nixli ckule",
        "ta klama bo jubme",
    ]);
}

#[test]
fn assert_parse_5_4() {
    assert_parses(&[
        "do mutce bo barda gerku bo kavbu",
        "ta melbi cmalu nixli ckule",
        "ta melbi cmalu nixli bo ckule",
        "ta melbi cmalu bo nixli ckule",
        "ta melbi cmalu bo nixli bo ckule",
        "ta cmalu bo nixli bo ckule",
    ]);
}

#[test]
fn assert_parse_5_5() {
    assert_parses(&[
        "ta ke melbi cmalu ke'e nixli ckule",
        "ta ke ke melbi cmalu ke'e nixli ke'e ckule",
        "ta ke ke melbi cmalu ke'e nixli ke'e ckule",
        "ta ke ke ke melbi cmalu ke'e nixli ke'e ckule ke'e",
        "ta melbi ke cmalu nixli ke'e ckule",
        "ta melbi cmalu ke nixli ckule",
        "ta melbi cmalu ke nixli ckule ke'e",
        "ta melbi ke cmalu nixli ckule",
        "ta melbi ke cmalu nixli ckule ke'e",
        "ta melbi ke cmalu ke nixli ckule",
        "ta melbi ke cmalu ke nixli ckule ke'e",
        "ta melbi ke cmalu ke nixli ckule ke'e ke'e",
        "ta melbi ke cmalu nixli bo ckule",
        "ta melbi ke cmalu nixli bo ckule ke'e",
    ]);
}

#[test]
fn assert_parse_5_6() {
    assert_parses(&[
        "barda xunre gerku",
        "barda xunre bo gerku",
        "barda je xunre gerku",
        "xunre je barda gerku",
        "barda je pelxu bo xunre gerku",
        "barda je ke pelxu xunre ke'e gerku",
        "barda je pelxu xunre gerku",
        "ta blanu je zdani",
        "ta melbi je nixli ckule",
        "ta ke melbi ckule ke'e je ke nixli ckule",
        "ta ke melbi ckule ke'e je ke nixli ckule ke'e",
        "le bajra cu jinga ja te jinga",
        "blanu naja lenku skapi",
        "xamgu jo tordu nuntavla",
        "vajni ju pluka nuntavla",
        "ricfu je blanu jabo crinu",
        "ricfu je blanu jabo crino bo blanu",
        "ricfu je ke blanu ja crino",
        "ricfu je ke blanu ja crino ke'e",
        "ti blanu joi xunre bolci",
        "ti blanu xunre bolci",
        "ti blanu je xunre bolci",
        "gu'e barda gi xunre gerku",
        "gu'e barda je xunre gi gerku ja mlatu",
    ]);
}

#[test]
fn assert_parse_5_7() {
    assert_parses(&[
        "ti xamgu zdani",
        "ti xamgu be do bei mi zdani",
        "ti xamgu be do bei mi be'o zdani",
        "ti cmalu be le ka se canlu bei lo'e ckule be'o nixli be le nanca be li mu be'o bei lo merku be'o bo ckule la bryklyn loi pemci le mela nu,IORK prenu le jecta",
        "mi klama be le zarci bei le zdani",
        "mi klama be le zarci bei le zdani be'o",
        "mi klama le zarci le zdani",
        "melbi je cmalu nixli bo ckule",
        "ti xamgu be fi mi bei fe do zdani",
        "ti xamgu be fi mi bei fe do be'o zdani",
        "ti xamgu be fi mi zdani",
        "ti xamgu be fi mi be'o zdani",
        "ta blanu be ga'a mi zdani",
        "ta blanu be ga'a mi be'o zdani",
        "ta blanu zdani ga'a mi",
        "le xamgu be do noi barda cu zdani",
        "le xamgu be do be'o noi barda cu zdani",
        "le xamgu be le ctuca be'o zdani",
        "le xamgu be le ctuca ku be'o zdani",
    ]);
}

#[test]
fn assert_parse_5_8() {
    assert_parses(&[
        "ta blanu zdani",
        "ta zdani co blanu",
        "mi klama be le zarci bei le zdani be'o troci",
        "mi troci co klama le zarci le zdani",
        "ta nixli ckule co cmalu",
        "ta nixli bo ckule co cmalu",
        "ta cmalu ke nixli ckule co melbi",
        "ta cmalu ke nixli ckule ke'e co melbi",
        "ckule co melbi nixli",
        "ke melbi nixli ke'e ckule",
        "ckule co nixli co cmalu",
        "ke ke cmalu ke'e nixli ke'e ckule",
        "cmalu nixli ckule",
        "mi klama co sutra",
        "mi klama be le zarci be'o co sutra",
    ]);
}

#[test]
fn assert_parse_5_9() {
    assert_parses(&[
        "la djan klama le zarci",
        "la djan go'i troci",
        "la djan klama be le zarci be'o traci",
        "li vo nu'a su'i li re li re",
        "mi jimpe tu'a loi nu'a su'i nabmi",
        "la prim palvr pamoi cusku",
        "la anis joi la asun bruna remei",
        "ti nu zdile kei kumfa",
        "ti zdile kumfa",
    ]);
}

#[test]
fn assert_parse_5_10() {
    assert_parses(&[
        "le ci nolraitru",
        "la BALtazar cu me le ci nolraitru",
        "do du la djan",
        "do me la djan",
        "ta me lai kraislr karce",
        "ta me lai kraislr me'u karce",
        "re me le ci nolraitru e la djan cu blabi",
        "re me le ci nolraitru e la djan me'u cu blabi",
        "re me le ci nolraitru me'u e la djan cu blabi",
        "ta me la'e le se cusku be do me'u cukta",
        "le me le ci noltraitru me'u nunsalci",
        "le me le ci noltraitru ku me'u nunsalci",
    ]);
}

#[test]
fn assert_parse_5_11() {
    assert_parses(&[
        "mi prami do",
        "do se prami mi",
        "la alis cu cadzu klama le zarci",
        "le zarci cu se ke cadzu klama ke'e la alis",
        "le zarci cu se cadzu klama la alis",
        "le zarci cu cadzu se klama la alis",
        "la djan cu cadzu se klama la alis",
    ]);
}

#[test]
fn assert_parse_5_12() {
    assert_parses(&[
        "la alis cu na'e ke cadzu klama le zarci",
        "la alis cu na'e ke cadzu klama ke'e le zarci",
        "la alis cu na'e cadzu klama le zarci",
        "la djonz cu na'e pamoi cusku",
        "mi na'e sutra bo cadzu be fi le birka be'o klama le zarci",
        "mi na'e ke sutra cadzu be fi le birka ke'e klama le zarci",
        "mi na'e ke sutra cadzu be fi le birka be'o ke'e klama le zarci",
        "mi sutra bo cadzu be fi le birka be'o je masno klama le zarci",
        "mi ke sutra cadzu be fi le birka ke'e je masno klama le zarci",
        "mi ke sutra cadzu be fi le birka be'o ke'e je masno klama le zarci",
        "mi na'e ke sutra bo cadzu be fi le birka be'o je masno klama le zarci",
        "mi na'e ke sutra bo cadzu be fi le birka be'o je masno klama ke'e le zarci",
        "mi na'e ke sutra bo cadzu be fi le birka je masno klama le zarci",
        "mi na'e ke sutra bo cadzu be fi le birka je masno klama be'o le zarci",
        "mi na'e ke sutra bo cadzu be fi le birka je masno klama ke'e le zarci",
        "mi na'e ke sutra bo cadzu be fi le birka je masno klama be'o ke'e le zarci",
    ]);
}

#[test]
fn assert_parse_5_13() {
    assert_parses(&[
        "mi pu klama le zarci",
        "la djonz na pamoi cusku",
        "mi na pu klama le zarci",
        "mi na na klama le zarci",
        "mi na pu na ca klama le zarci",
    ]);
}

#[test]
fn assert_parse_6_1() {
    assert_parses(&[
        "mi klama le zarci",
        "e'osai ko sarji la lojban",
        "mi cusku lu e'osai li'u le tcidu",
        "ti mitre li ci",
    ]);
}

#[test]
fn assert_parse_6_2() {
    assert_parses(&[
        "le zarci",
        "le zarci cu barda",
        "le nanmu cu ninmu",
        "lo zarci",
        "lo nanmu cu ninmu",
        "la cribe pu finti le lisri",
        "la stace pu citka lo cirla",
        "lo cribe pu finti le lisri",
        "le remna pu finti le lisri",
        "lo remna pu finti le lisri",
    ]);
}

#[test]
fn assert_parse_6_3() {
    assert_parses(&[
        "le prenu cu bevri le pipno",
        "lei prenu cu bevri le pipno",
        "loi cinfo cu xabju le fi'ortu'a",
        "loi glipre cu xabju le fi'ortu'a",
        "loi matne cu ranti",
        "lai cribe pu finti le vi cukta",
    ]);
}

#[test]
fn assert_parse_6_4() {
    assert_parses(&[
        "lo ratcu cu bunre",
        "loi ratcu cu cmalu",
        "lo'i ratcu cu barda",
        "mi fadni zo'e lo'i lobypli",
    ]);
}

#[test]
fn assert_parse_6_5() {
    assert_parses(&[
        "lo'e cinfo cu xabju le fi'ortu'a",
        "lo'e glipre cu xabju le fi'ortu'a na.e le gligugde",
        "le'e xelso merko cu gusta ponse",
        "le'e skina cu se finti ne'i la xali,uyd",
    ]);
}

#[test]
fn assert_parse_6_6() {
    assert_parses(&[
        "do cadzu le bisli",
        "re do cadzu le bisli",
        "mi ponse su'o ci cutci",
        "ro do cadzu le bisli",
        "mi cusku lu do cadzu le bisli li'u",
        "mi cusku ro lu do cadzu le bisli li'u",
        "mi cusku su'o lu do cadzu le bisli li'u",
        "mi cusku re lu do cadzu le bisli li'u",
        "re le gerku cu blabi",
        "re le ci gerku cu blabi",
        "le ci gerku cu blabi",
        "ro le ci gerku cu blabi",
        "ci lo gerku cu blabi",
        "ci lo ro gerku cu blabi",
        "so'o lo ci gerku cu blabi",
    ]);
}

#[test]
fn assert_parse_6_8() {
    assert_parses(&[
        "ci gerku cu blabi",
        "ci gerku ku cu blabi",
        "mi ponse su'o ci lo cutci",
    ]);
}

#[test]
fn assert_parse_6_9() {
    assert_parses(&[
        "re do cu nanmu",
        "le re do cu nanmu",
        "re le ci cribe cu bunre",
        "le re le ci cribe cu bunre",
        "pa le re le ci cribe cu bunre",
    ]);
}

#[test]
fn assert_parse_6_10() {
    assert_parses(&[
        "mi viska lu le xunre cmaxirma li'u",
        "mi viska le selsinxa be lu le xunre cmaxirma li'u",
        "mi viska la'e lu le xunre cmaxirma li'u",
        "mi viska la'e lu le xunre cmaxirma li'u lu'u",
        "mi pu cusku lu'e le vi cukta",
        "mi pu cusku le sinxa be le vi cukta",
        "mi troci tu'a le vorme",
        "lo'i ratcu cu barda .iku'i lu'a ri cmalu",
        "lo ratcu cu cmalu .i ku'i lu'i ri barda",
        "mi ce do girzu .i lu'o ri gunma .i vu'i ri porsi",
        "mi viska na'e bo le gerku",
        "mi nelci loi glare cidja .ije do nelci to'ebo ri .ije la djein nelci no'ebo ra",
    ]);
}

#[test]
fn assert_parse_6_11() {
    assert_parses(&[
        "coi",
        "je'e",
        "coi djan",
        "doi djan",
        "coi xunre pastu nixli",
        "co'o la bab .e la noras",
        "coi le xunre pastu nixli",
        "doi la djan",
        "doi djan ko klama mi",
        "ko klama mi doi djan",
    ]);
}

#[test]
fn assert_parse_6_12() {
    assert_parses(&[
        "la djonz klama le zarci",
        "lai djonz klama le zarci",
        "doi djan pol djonz le bloti cu klama fi la niiuport niiuz",
    ]);
}

#[test]
fn assert_parse_6_13() {
    assert_parses(&[
        "mi prami do",
        "le cribe goi ko'a cu xekri .i ko'a citka le smacu",
        "ro da poi prenu cu prami pa de poi finpe",
        "le cribe cu batci vo'a",
        "mi klama la frankfurt ri",
        "mi klama la frankfurt zo'e zo'e zo'e",
        "ko muvgau ti ta tu",
        "li re su'i re du li vo .i la'e di'u jetnu",
        "mi viska le mlatu ku poi zo'e zbasu ke'a loi slasi",
        "do klama ma",
        "bycy broda dypa",
    ]);
}

#[test]
fn assert_parse_6_14() {
    assert_parses(&[
        "mi cusku lu mi'e djan li'u",
        "mi cusku lo'u li mi le'u",
        "mi cusku zo ai",
        "mi cusku zoi kuot I'm John kuot",
    ]);
}

#[test]
fn assert_parse_6_15() {
    assert_parses(&[
        "li vo",
        "li re su'i re",
        "li abu bi'epi'i xy bi'ete'a re su'i by bi'epi'i xy su'i cy",
        "me'o vo",
        "me'o re su'i re",
    ]);
}

#[test]
fn parse_takes_all_tokens() {
    for sentence in ["ku", "mi klama le", "bo", "li'u", "mi ke'e", "vau vau", "be mi", "zo"] {
        let arena = Arena::new();
        let tokens = tokens(sentence);
        match Cst::parse(&tokens, &arena) {
            Err(error) => assert!(error.location <= tokens.len()),
            Ok(_) => panic!("{sentence:?} parses"),
        }
    }
}

#[test]
fn parse_empty_text() {
    let arena = Arena::new();
    let cst = Cst::parse(&[], &arena).unwrap();
    assert!(cst.root().paragraphs.is_some());
    assert!(cst.root().faho.is_none());
}

#[test]
fn parse_reports_what_was_due_behind_a_cut() {
    let arena = Arena::new();
    let tokens = tokens("tei by");
    match Cst::parse(&tokens, &arena) {
        Err(error) => {
            assert_eq!(error.location, 2);
            match error.error {
                Error::ExpectedGot { expected, got } => {
                    assert_eq!(expected, [Selmaho::Foi]);
                    assert_eq!(got, None);
                }
                other => panic!("{other:?}"),
            }
        }
        Ok(_) => panic!("parses"),
    }
}

#[test]
fn parse_reports_left_over_tokens() {
    let arena = Arena::new();
    let tokens = tokens("mi klama le");
    match Cst::parse(&tokens, &arena) {
        Err(error) => {
            assert_eq!(error.location, 2);
            assert!(matches!(error.error, Error::Combinator(ErrorKind::Eof)));
        }
        Ok(_) => panic!("parses"),
    }
}

#[test]
fn parse_sentence_shape() {
    let input = "mi nelci la sneturfa'i";
    let arena = Arena::new();
    let tokens = tokens(input);
    let cst = Cst::parse(&tokens, &arena).unwrap();
    let text = cst.root();
    assert!(text.initial_indicators.is_none());
    assert!(text.faho.is_none());
    // one paragraph with one sentence
    let paragraphs = text.paragraphs.as_ref().unwrap();
    assert!(paragraphs.0.rest.is_empty());
    let items = &paragraphs.0.first.sentences;
    assert!(items.rest.is_empty());
    let ParagraphItem::Sentences(sentences) = items.first else { panic!("no sentence") };
    assert!(sentences.0.is_empty());
    assert!(sentences.1.rest.is_empty());
    assert!(sentences.1.first.rest.is_empty());
    let Sentences3::Single(sentence) = sentences.1.first.first else { panic!("a group") };
    // one argument before the selbri, and a selbri with what follows it
    assert_eq!(sentence.before_args.0.len(), 1);
    assert!(sentence.tail.is_some());
    // the selbri is the gismu, the arguments are a pro-sumti and a description with `la`
    let before = format!("{:?}", sentence.before_args);
    assert_eq!(before.matches("Koha(").count(), 1);
    assert_eq!(before.matches("selmaho: Koha").count(), 1);
    let tail = format!("{:?}", sentence.tail);
    assert_eq!(tail.matches("Gismu(").count(), 1);
    assert_eq!(tail.matches("selmaho: Gismu").count(), 1);
    assert_eq!(tail.matches("Gadri(").count(), 1);
    assert_eq!(tail.matches("selmaho: La,").count(), 1);
    assert_eq!(tail.matches("selmaho: Lujvo").count(), 1);
    assert_eq!(tail.matches("selmaho: Koha").count(), 0);
    // every token is in the tree, at its place
    let all = format!("{:?}", text);
    for token in &tokens {
        assert_eq!(all.matches(&format!("{:?}", token.span)).count(), 1);
    }
    // the leaves are the four words and nothing else: no terminator is there
    assert_eq!(all.matches("selmaho: ").count(), 4);
    assert_eq!(all.matches("Sentences(").count(), 1);
    assert_eq!(before.matches("span: Span { start: 0, end: 2 }").count(), 1);
    assert_eq!(tail.matches("selmaho: Gismu, bahe: [], experimental: false, span: Span { start: 3, end: 8 }").count(), 1);
    assert_eq!(tail.matches("selmaho: La, bahe: [], experimental: false, span: Span { start: 9, end: 11 }").count(), 1);
    assert_eq!(tail.matches("selmaho: Lujvo, bahe: [], experimental: false, span: Span { start: 12, end: 22 }").count(), 1);
    // the description with `la` is the one argument behind the selbri, and
    // the lujvo stands inside it
    let gadri = tail.find("Gadri(").unwrap();
    assert!(tail.find("selmaho: Gismu").unwrap() < gadri);
    assert!(gadri < tail.find("selmaho: La,").unwrap());
    assert!(tail.find("selmaho: La,").unwrap() < tail.find("selmaho: Lujvo").unwrap());
    assert_eq!(tail.matches("Arg(").count(), 1);
    assert_eq!(before.matches("Arg(").count(), 1);
}

#[test]
fn tree_tells_where_the_text_stands() {
    let input = "  mi nelci la sneturfa'i  ";
    let arena = Arena::new();
    let tokens = tokens(input);
    let cst = Cst::parse(&tokens, &arena).unwrap();
    assert_eq!(cst.tokens(), &tokens[..]);
    assert_eq!(cst.start_location(), Some(2));
    assert_eq!(cst.end_location(), Some(24));
    assert_eq!(cst.experimental(), false);
}

#[test]
fn tree_tells_of_experimental_words_at_any_depth() {
    let arena = Arena::new();
    let tokens = tokens("mi klama le zarci be le ca'e'ei prenu");
    let cst = Cst::parse(&tokens, &arena).unwrap();
    assert_eq!(cst.experimental(), true);
    let plain = lex_all("mi klama le zarci be le prenu");
    let cst = Cst::parse(&plain, &arena).unwrap();
    assert_eq!(cst.experimental(), false);
}

#[test]
fn empty_tree_stands_nowhere() {
    let arena = Arena::new();
    let cst = Cst::parse(&[], &arena).unwrap();
    assert_eq!(cst.start_location(), None);
    assert_eq!(cst.end_location(), None);
    assert_eq!(cst.experimental(), false);
}

#[test]
fn node_begins_at_its_first_token() {
    // a word with emphasis before it begins at the emphasis, and ends with
    // the indicators behind it
    let input = "ba'e mi ui klama";
    let arena = Arena::new();
    let tokens = tokens(input);
    let (end, word) = parse_word(&tokens, 0, &arena, Selmaho::Koha).unwrap();
    assert_eq!(end, 3);
    assert_eq!(word.span.slice(input), Some("mi"));
    assert_eq!(start_location(&tokens, 0, end), Some(0));
    assert_eq!(end_location(&tokens, 0, end), Some(10));
    assert_eq!(experimental(&tokens, 0, end), false);
    assert_eq!(start_location(&tokens, 3, 3), None);
    assert_eq!(end_location(&tokens, 3, 3), None);
    assert_eq!(experimental(&tokens, 3, 3), false);
}
