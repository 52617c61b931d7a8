use countries::api::{by_cca3, callingcode, capital, compile, currency, language, name, QueryError};
use countries::data::{
    CapitalInformation, Car, Country, Currency, Flag, Idd, Name, NativeName,
};
use countries::engine::{find_first, select};
use countries::matchers::{
    has_calling_code, has_capital, has_code, has_currency, has_language, has_name,
    is_dialing_tail, meets, Criterion,
};

fn text(s: &str) -> String {
    s.to_string()
}

fn texts(list: &[&str]) -> Vec<String> {
    list.iter().map(|s| s.to_string()).collect()
}

fn image() -> Flag {
    Flag { png: text("flag.png"), svg: text("flag.svg"), alt: None }
}

fn country(cca3: &str, common: &str, official: &str) -> Country {
    Country {
        name: Name {
            common: text(common),
            official: text(official),
            native_name: vec![(
                text("nat"),
                NativeName { common: text(common), official: text(official) },
            )],
        },
        tld: texts(&[".xx"]),
        cca2: text("XX"),
        ccn3: text("000"),
        cca3: text(cca3),
        cioc: text(cca3),
        independent: Some(true),
        status: text("officially-assigned"),
        un_member: true,
        currencies: vec![],
        idd: Idd { root: text(""), suffixes: vec![] },
        capital: vec![],
        alt_spellings: texts(&[common]),
        region: text("Region"),
        subregion: text("Subregion"),
        languages: vec![],
        translations: vec![],
        latlng: [4630824730698113024, 4611686018427387904],
        landlocked: false,
        borders: vec![],
        area: 4652007308841189376,
        demonyms: vec![(text("eng"), vec![(text("f"), text("Citizen")), (text("m"), text("Citizen"))])],
        flag: text("flag"),
        maps: vec![(text("googleMaps"), text("https://maps.example/x"))],
        population: 1000,
        gini: vec![(text("2018"), 4629700416936869888)],
        fifa: text(cca3),
        car: Car { signs: texts(&["X"]), side: text("right") },
        timezones: texts(&["UTC"]),
        continents: texts(&["Continent"]),
        flags: image(),
        coat_of_arms: image(),
        start_of_week: text("monday"),
        capital_info: CapitalInformation { latlng: Some([4630824730698113024, 4611686018427387904]) },
        postal_code: vec![(text("format"), Some(text("#####"))), (text("regex"), None)],
    }
}

fn money(code: &str, name: &str, symbol: &str) -> (String, Currency) {
    (text(code), Currency { name: text(name), symbol: text(symbol) })
}

fn catalog() -> Vec<Country> {
    let mut france = country("FRA", "France", "French Republic");
    france.capital = texts(&["Paris"]);
    france.languages = vec![(text("fra"), text("French"))];
    france.currencies = vec![money("EUR", "Euro", "€")];
    france.idd = Idd { root: text("+3"), suffixes: texts(&["3"]) };

    let mut usa = country("USA", "United States", "United States of America");
    usa.capital = texts(&["Washington, D.C."]);
    usa.languages = vec![(text("eng"), text("English"))];
    usa.currencies = vec![money("USD", "United States dollar", "$")];
    usa.idd = Idd { root: text("+1"), suffixes: texts(&["201", "202", "203"]) };

    let mut uk = country("GBR", "United Kingdom", "United Kingdom of Great Britain and Northern Ireland");
    uk.capital = texts(&["London"]);
    uk.languages = vec![(text("eng"), text("English"))];
    uk.currencies = vec![money("GBP", "British pound", "£")];
    uk.idd = Idd { root: text("+4"), suffixes: texts(&["4"]) };

    let mut uae = country("ARE", "United Arab Emirates", "United Arab Emirates");
    uae.capital = texts(&["Abu Dhabi"]);
    uae.languages = vec![(text("ara"), text("Arabic"))];
    uae.currencies = vec![money("AED", "United Arab Emirates dirham", "د.إ")];
    uae.idd = Idd { root: text("+9"), suffixes: texts(&["71"]) };

    let mut tanzania = country("TZA", "Tanzania", "The United Republic of Tanzania");
    tanzania.capital = texts(&["Dodoma"]);
    tanzania.languages = vec![(text("eng"), text("English")), (text("swa"), text("Swahili"))];
    tanzania.currencies = vec![money("TZS", "Tanzanian shilling", "Sh")];
    tanzania.idd = Idd { root: text("+2"), suffixes: texts(&["55"]) };

    let mut south_africa = country("ZAF", "South Africa", "Republic of South Africa");
    south_africa.capital = texts(&["Pretoria", "Bloemfontein", "Cape Town"]);
    south_africa.languages = vec![(text("afr"), text("Afrikaans")), (text("eng"), text("English"))];
    south_africa.currencies = vec![money("ZAR", "South African rand", "R")];
    south_africa.idd = Idd { root: text("+2"), suffixes: texts(&["7"]) };

    let mut anguilla = country("AIA", "Anguilla", "Anguilla");
    anguilla.capital = texts(&["The Valley"]);
    anguilla.languages = vec![(text("eng"), text("English"))];
    anguilla.currencies = vec![money("XCD", "Eastern Caribbean dollar", "$")];
    anguilla.idd = Idd { root: text("+1"), suffixes: texts(&["264"]) };

    let mut antarctica = country("ATA", "Antarctica", "Antarctica");
    antarctica.idd = Idd { root: text(""), suffixes: texts(&["1264", "264", "+1264"]) };

    vec![france, usa, uk, uae, tanzania, south_africa, anguilla, antarctica]
}

fn codes(found: &[Country]) -> Vec<&str> {
    found.iter().map(|c| c.cca3.as_str()).collect()
}

#[test]
fn by_cca3_finds_a_known_code() {
    let all = catalog();
    let found = by_cca3(&all, "GBR").unwrap();
    assert_eq!(found.cca3, "GBR");
    assert_eq!(found, all[2]);
}

#[test]
fn by_cca3_reports_an_unknown_code() {
    let all = catalog();
    assert_eq!(by_cca3(&all, "XXX"), Err(QueryError::NotFound));
    assert_eq!(by_cca3(&all, ""), Err(QueryError::NotFound));
    assert_eq!(by_cca3(&[], "FRA"), Err(QueryError::NotFound));
}

#[test]
fn by_cca3_compares_letter_for_letter() {
    let all = catalog();
    assert_eq!(by_cca3(&all, "fra"), Err(QueryError::NotFound));
    assert_eq!(by_cca3(&all, "FR"), Err(QueryError::NotFound));
    assert_eq!(by_cca3(&all, "FRA "), Err(QueryError::NotFound));
    assert_eq!(by_cca3(&all, "F.A"), Err(QueryError::NotFound));
    assert_eq!(by_cca3(&all, "FRA").unwrap().name.common, "France");
}

#[test]
fn by_cca3_takes_the_first_of_equal_codes() {
    let mut all = catalog();
    all.push(country("FRA", "Second France", "Second French Republic"));
    assert_eq!(by_cca3(&all, "FRA").unwrap().name.common, "France");
}

#[test]
fn name_matching_ignores_case() {
    let all = catalog();
    let upper = name(&all, "FRANCE").unwrap();
    let lower = name(&all, "france").unwrap();
    assert_eq!(upper, lower);
    assert_eq!(codes(&upper), vec!["FRA"]);
    assert_eq!(upper[0], all[0]);
}

#[test]
fn capital_and_currency_matching_ignore_case() {
    let all = catalog();
    assert_eq!(capital(&all, "PARIS").unwrap(), capital(&all, "paris").unwrap());
    assert_eq!(codes(&capital(&all, "pArIs").unwrap()), vec!["FRA"]);
    assert_eq!(currency(&all, "EURO").unwrap(), currency(&all, "euro").unwrap());
    assert_eq!(codes(&currency(&all, "eur").unwrap()), vec!["FRA"]);
}

#[test]
fn name_matches_common_or_official() {
    let all = catalog();
    assert_eq!(codes(&name(&all, "republic").unwrap()), vec!["FRA", "TZA", "ZAF"]);
    assert_eq!(codes(&name(&all, "^tanzania$").unwrap()), vec!["TZA"]);
    assert_eq!(codes(&name(&all, "great britain").unwrap()), vec!["GBR"]);
}

#[test]
fn name_pattern_keeps_its_anchor() {
    let all = catalog();
    assert_eq!(codes(&name(&all, "^united").unwrap()), vec!["USA", "GBR", "ARE"]);
    assert_eq!(codes(&name(&all, "united").unwrap()), vec!["USA", "GBR", "ARE", "TZA"]);
    assert_eq!(codes(&name(&all, "^united (states|kingdom)").unwrap()), vec!["USA", "GBR"]);
    assert_eq!(codes(&name(&all, "emirates$").unwrap()), vec!["ARE"]);
}

#[test]
fn name_is_a_pattern_and_no_plain_text() {
    let all = catalog();
    assert_eq!(codes(&name(&all, "^.{6}$").unwrap()), vec!["FRA"]);
    assert_eq!(codes(&name(&all, "fr.nce").unwrap()), vec!["FRA"]);
    assert_eq!(name(&all, "").unwrap().len(), all.len());
}

#[test]
fn name_without_match_is_an_empty_list() {
    let all = catalog();
    assert_eq!(name(&all, "atlantis"), Ok(vec![]));
    assert_eq!(name(&[], "france"), Ok(vec![]));
}

#[test]
fn invalid_patterns_are_reported() {
    let all = catalog();
    assert_eq!(name(&all, "foo(bar"), Err(QueryError::InvalidPattern));
    assert_eq!(capital(&all, "[a-"), Err(QueryError::InvalidPattern));
    assert_eq!(currency(&all, "*"), Err(QueryError::InvalidPattern));
    assert_eq!(name(&[], "("), Err(QueryError::InvalidPattern));
    assert!(matches!(compile("a{2,1}"), Err(QueryError::InvalidPattern)));
    assert!(compile("a{1,2}").is_ok());
}

#[test]
fn capital_matches_any_of_the_capitals() {
    let all = catalog();
    assert_eq!(codes(&capital(&all, "^cape town$").unwrap()), vec!["ZAF"]);
    assert_eq!(codes(&capital(&all, "pretoria").unwrap()), vec!["ZAF"]);
    assert_eq!(codes(&capital(&all, "^(london|paris)$").unwrap()), vec!["FRA", "GBR"]);
}

#[test]
fn country_without_capital_matches_no_capital_pattern() {
    let all = catalog();
    let found = capital(&all, ".*").unwrap();
    assert_eq!(codes(&found), vec!["FRA", "USA", "GBR", "ARE", "TZA", "ZAF", "AIA"]);
    assert_eq!(capital(&all, "antarctica"), Ok(vec![]));
}

#[test]
fn language_matches_code_or_name_ignoring_case() {
    let all = catalog();
    let expected = vec!["USA", "GBR", "TZA", "ZAF", "AIA"];
    assert_eq!(codes(&language(&all, "eng")), expected);
    assert_eq!(codes(&language(&all, "ENG")), expected);
    assert_eq!(codes(&language(&all, "english")), expected);
    assert_eq!(codes(&language(&all, "English")), expected);
    assert_eq!(codes(&language(&all, "SWAHILI")), vec!["TZA"]);
}

#[test]
fn language_matching_is_exact() {
    let mut all = catalog();
    let mut other = country("XUS", "Elsewhere", "State of Elsewhere");
    other.languages = vec![(text("en-US"), text("English (US)"))];
    all.push(other);
    assert!(!codes(&language(&all, "eng")).contains(&"XUS"));
    assert!(!codes(&language(&all, "english")).contains(&"XUS"));
    assert_eq!(codes(&language(&all, "english (us)")), vec!["XUS"]);
    assert_eq!(codes(&language(&all, "EN-us")), vec!["XUS"]);
    assert_eq!(language(&all, "engl"), vec![]);
    assert_eq!(language(&all, "en"), vec![]);
}

#[test]
fn language_is_no_pattern() {
    let all = catalog();
    assert_eq!(language(&all, "eng.*"), vec![]);
    assert_eq!(language(&all, "^eng$"), vec![]);
    assert_eq!(language(&all, "("), vec![]);
    assert_eq!(language(&all, ""), vec![]);
}

#[test]
fn language_lowers_both_sides() {
    let mut shouting = country("XSH", "Shoutland", "Shoutland");
    shouting.languages = vec![(text("SHT"), text("SHOUTISH"))];
    let all = vec![shouting];
    assert_eq!(codes(&language(&all, "sht")), vec!["XSH"]);
    assert_eq!(codes(&language(&all, "Shoutish")), vec!["XSH"]);
    assert!(has_language(&all[0], &text("shoutish")));
    assert!(!has_language(&all[0], &text("SHOUTISH")));
}

#[test]
fn currency_matches_code_or_name() {
    let all = catalog();
    assert_eq!(codes(&currency(&all, "usd").unwrap()), vec!["USA"]);
    assert_eq!(codes(&currency(&all, "dollar").unwrap()), vec!["USA", "AIA"]);
    assert_eq!(codes(&currency(&all, "^dollar").unwrap()), Vec::<&str>::new());
    assert_eq!(codes(&currency(&all, "^(gbp|zar)$").unwrap()), vec!["GBR", "ZAF"]);
}

#[test]
fn currency_symbol_is_not_searched() {
    let all = catalog();
    assert_eq!(currency(&all, "€"), Ok(vec![]));
    assert_eq!(currency(&all, "\\$"), Ok(vec![]));
    assert_eq!(currency(&all, "^sh$"), Ok(vec![]));
}

#[test]
fn calling_code_drops_exactly_one_character() {
    let all = catalog();
    assert_eq!(codes(&callingcode(&all, "1264")), vec!["AIA"]);
    assert_eq!(callingcode(&all, "+1264"), vec![]);
    assert_eq!(callingcode(&all, "264"), vec![]);
    assert_eq!(callingcode(&all, "126"), vec![]);
    assert_eq!(callingcode(&all, "12645"), vec![]);
}

#[test]
fn calling_code_tries_every_suffix() {
    let all = catalog();
    assert_eq!(codes(&callingcode(&all, "1201")), vec!["USA"]);
    assert_eq!(codes(&callingcode(&all, "1203")), vec!["USA"]);
    assert_eq!(callingcode(&all, "1204"), vec![]);
    assert_eq!(codes(&callingcode(&all, "33")), vec!["FRA"]);
    assert_eq!(codes(&callingcode(&all, "27")), vec!["ZAF"]);
}

#[test]
fn calling_code_is_no_pattern() {
    let all = catalog();
    assert_eq!(callingcode(&all, "1.*"), vec![]);
    assert_eq!(callingcode(&all, "120[1-3]"), vec![]);
    assert_eq!(callingcode(&all, ""), vec![]);
}

#[test]
fn country_without_root_has_no_calling_code() {
    let all = catalog();
    for digits in ["1264", "264", "+1264", "", "64"] {
        assert!(!codes(&callingcode(&all, digits)).contains(&"ATA"));
        assert!(!has_calling_code(&all[7], &text(digits)));
    }
}

#[test]
fn calling_code_of_a_root_without_suffixes_never_matches() {
    let mut lone = country("XLO", "Lone", "Lone");
    lone.idd = Idd { root: text("+7"), suffixes: vec![] };
    assert!(!has_calling_code(&lone, &text("7")));
    assert!(!has_calling_code(&lone, &text("")));
    lone.idd.suffixes = texts(&[""]);
    assert!(has_calling_code(&lone, &text("7")));
    lone.idd = Idd { root: text("+"), suffixes: texts(&[""]) };
    assert!(has_calling_code(&lone, &text("")));
}

#[test]
fn calling_code_drops_a_character_of_any_width() {
    let mut wide = country("XWI", "Wide", "Wide");
    wide.idd = Idd { root: text("＋81"), suffixes: texts(&["3"]) };
    assert!(has_calling_code(&wide, &text("813")));
    assert!(!has_calling_code(&wide, &text("＋813")));
    assert!(!has_calling_code(&wide, &text("13")));
}

#[test]
fn dialing_tail_is_root_and_suffix_without_first_character() {
    let plus_one = ['+', '1'];
    let suffix = ['2', '6', '4'];
    assert!(is_dialing_tail(&plus_one, &suffix, &['1', '2', '6', '4']));
    assert!(!is_dialing_tail(&plus_one, &suffix, &['+', '1', '2', '6', '4']));
    assert!(!is_dialing_tail(&plus_one, &suffix, &['2', '6', '4']));
    assert!(!is_dialing_tail(&plus_one, &suffix, &['1', '2', '6', '5']));
    assert!(!is_dialing_tail(&plus_one, &suffix, &['9', '2', '6', '4']));
    assert!(is_dialing_tail(&['+'], &[], &[]));
    assert!(is_dialing_tail(&['+'], &['7'], &['7']));
}

#[test]
fn results_keep_the_order_and_the_repeats_of_the_catalog() {
    let mut all = catalog();
    all.reverse();
    all.push(country("FRA", "France", "French Republic"));
    all.insert(0, country("FRA", "France", "French Republic"));
    let found = name(&all, "^(france|united states)$").unwrap();
    assert_eq!(codes(&found), vec!["FRA", "USA", "FRA", "FRA"]);
}

#[test]
fn results_are_whole_copies() {
    let all = catalog();
    let found = language(&all, "swa");
    assert_eq!(found.len(), 1);
    assert_eq!(found[0], all[4]);
    assert_eq!(found[0].demonyms, all[4].demonyms);
    assert_eq!(found[0].capital_info, all[4].capital_info);
    assert_eq!(found[0].postal_code, all[4].postal_code);
    assert_eq!(all, catalog());
}

#[test]
fn clone_copies_every_field() {
    let all = catalog();
    for c in &all {
        assert_eq!(&c.clone(), c);
    }
    assert_eq!(all[1].name.clone(), all[1].name);
    assert_eq!(all[1].idd.clone(), all[1].idd);
    assert_eq!(all[1].car.clone(), all[1].car);
    assert_eq!(all[1].flags.clone(), all[1].flags);
    assert_eq!(all[1].capital_info.clone(), all[1].capital_info);
    assert_eq!(all[1].currencies[0].1.clone(), all[1].currencies[0].1);
    assert_eq!(all[1].name.native_name[0].1.clone(), all[1].name.native_name[0].1);
}

#[test]
fn single_matchers_decide_for_one_country() {
    let all = catalog();
    let united = compile("^united").unwrap();
    assert!(has_code(&all[0], &text("FRA")));
    assert!(!has_code(&all[0], &text("fra")));
    assert!(has_name(&all[1], &united));
    assert!(!has_name(&all[4], &united));
    assert!(has_capital(&all[5], &compile("town").unwrap()));
    assert!(!has_capital(&all[7], &compile("").unwrap()));
    assert!(has_currency(&all[3], &united));
    assert!(!has_currency(&all[0], &united));
    assert!(has_language(&all[4], &text("swa")));
    assert!(!has_language(&all[4], &text("SWA")));
    assert!(has_calling_code(&all[6], &text("1264")));
}

#[test]
fn criteria_choose_the_matcher() {
    let all = catalog();
    let united = compile("united").unwrap();
    assert!(meets(&Criterion::Code(text("ZAF")), &all[5]));
    assert!(!meets(&Criterion::Code(text("ZAF")), &all[4]));
    assert!(meets(&Criterion::Name(united.clone()), &all[4]));
    assert!(!meets(&Criterion::Capital(united.clone()), &all[4]));
    assert!(!meets(&Criterion::Currency(united.clone()), &all[4]));
    assert!(meets(&Criterion::Currency(united), &all[1]));
    assert!(meets(&Criterion::Language(text("swahili")), &all[4]));
    assert!(meets(&Criterion::CallingCode(text("255")), &all[4]));
    assert!(!meets(&Criterion::CallingCode(text("55")), &all[4]));
}

#[test]
fn select_and_find_first_agree() {
    let all = catalog();
    let english = Criterion::Language(text("eng"));
    let found = select(&all, &english);
    assert_eq!(codes(&found), vec!["USA", "GBR", "TZA", "ZAF", "AIA"]);
    assert_eq!(find_first(&all, &english), Some(found[0].clone()));
    assert_eq!(find_first(&all, &Criterion::Language(text("xyz"))), None);
    assert_eq!(select(&all, &Criterion::Language(text("xyz"))), vec![]);
    assert_eq!(find_first(&[], &english), None);
}
