use countries::api::all;
use countries::data::{
    CapitalInformation, Car, Country, Flag, Idd, Name, NativeName,
};
use countries::pagination::{count_pages, page_number, paginate, Paginated, ITEMS_PER_PAGE};

fn text(s: &str) -> String {
    s.to_string()
}

fn texts(list: &[&str]) -> Vec<String> {
    list.iter().map(|s| s.to_string()).collect()
}

fn image() -> Flag {
    Flag { png: text("flag.png"), svg: text("flag.svg"), alt: None }
}

fn country(cca3: &str, common: &str, official: &str) -> Country {
    Country {
        name: Name {
            common: text(common),
            official: text(official),
            native_name: vec![(
                text("nat"),
                NativeName { common: text(common), official: text(official) },
            )],
        },
        tld: texts(&[".xx"]),
        cca2: text("XX"),
        ccn3: text("000"),
        cca3: text(cca3),
        cioc: text(cca3),
        independent: Some(true),
        status: text("officially-assigned"),
        un_member: true,
        currencies: vec![],
        idd: Idd { root: text(""), suffixes: vec![] },
        capital: vec![],
        alt_spellings: texts(&[common]),
        region: text("Region"),
        subregion: text("Subregion"),
        languages: vec![],
        translations: vec![],
        latlng: [4630824730698113024, 4611686018427387904],
        landlocked: false,
        borders: vec![],
        area: 4652007308841189376,
        demonyms: vec![(text("eng"), vec![(text("f"), text("Citizen")), (text("m"), text("Citizen"))])],
        flag: text("flag"),
        maps: vec![(text("googleMaps"), text("https://maps.example/x"))],
        population: 1000,
        gini: vec![(text("2018"), 4629700416936869888)],
        fifa: text(cca3),
        car: Car { signs: texts(&["X"]), side: text("right") },
        timezones: texts(&["UTC"]),
        continents: texts(&["Continent"]),
        flags: image(),
        coat_of_arms: image(),
        start_of_week: text("monday"),
        capital_info: CapitalInformation { latlng: Some([4630824730698113024, 4611686018427387904]) },
        postal_code: vec![(text("format"), Some(text("#####"))), (text("regex"), None)],
    }
}

fn catalog(n: usize) -> Vec<Country> {
    (0..n).map(|i| country(&format!("C{:02}", i), &format!("Country {}", i), "Official")).collect()
}

fn codes(page: &Paginated) -> Vec<&str> {
    page.items.iter().map(|c| c.cca3.as_str()).collect()
}

fn params(list: &[(&str, &str)]) -> Vec<(String, String)> {
    list.iter().map(|(k, v)| (k.to_string(), v.to_string())).collect()
}

#[test]
fn page_size_is_twenty() {
    assert_eq!(ITEMS_PER_PAGE, 20);
}

#[test]
fn count_pages_rounds_up() {
    assert_eq!(count_pages(0), 0);
    assert_eq!(count_pages(1), 1);
    assert_eq!(count_pages(19), 1);
    assert_eq!(count_pages(20), 1);
    assert_eq!(count_pages(21), 2);
    assert_eq!(count_pages(40), 2);
    assert_eq!(count_pages(45), 3);
    assert_eq!(count_pages(250), 13);
    assert_eq!(count_pages(usize::MAX), usize::MAX / 20 + 1);
}

#[test]
fn count_pages_is_zero_only_for_nothing() {
    for n in 0..200 {
        let pages = count_pages(n);
        assert_eq!(pages == 0, n == 0);
        assert!(pages * 20 >= n);
        assert!(n == 0 || (pages - 1) * 20 < n);
    }
}

#[test]
fn forty_five_countries_make_three_pages() {
    let all = catalog(45);
    let first = paginate("/api/countries", Some("page=1"), &all);
    assert_eq!(first.total_page_count, 3);
    assert_eq!(first.items.len(), 20);
    assert_eq!(first.next, Some("/api/countries?page=2".to_string()));
    assert_eq!(first.items[0].cca3, "C00");
    assert_eq!(first.items[19].cca3, "C19");

    let second = paginate("/api/countries", Some("page=2"), &all);
    assert_eq!(second.total_page_count, 3);
    assert_eq!(second.items.len(), 20);
    assert_eq!(second.next, Some("/api/countries?page=3".to_string()));
    assert_eq!(second.items[0].cca3, "C20");

    let third = paginate("/api/countries", Some("page=3"), &all);
    assert_eq!(third.total_page_count, 3);
    assert_eq!(third.items.len(), 5);
    assert_eq!(third.next, None);
    assert_eq!(codes(&third), vec!["C40", "C41", "C42", "C43", "C44"]);
}

#[test]
fn pages_together_are_the_list() {
    let all = catalog(45);
    let mut seen = Vec::new();
    for page in 1..=3 {
        let query = format!("page={}", page);
        seen.extend(paginate("/c", Some(&query), &all).items);
    }
    assert_eq!(seen, all);
}

#[test]
fn same_page_twice_gives_the_same_items() {
    let all = catalog(45);
    let once = paginate("/api/countries", Some("page=2"), &all);
    let twice = paginate("/api/countries", Some("page=2"), &all);
    assert_eq!(once, twice);
    let other = paginate("/elsewhere", Some("x=y&page=+2"), &all);
    assert_eq!(once.items, other.items);
    assert_eq!(once.total_page_count, other.total_page_count);
}

#[test]
fn page_defaults_to_one() {
    let all = catalog(45);
    let first = paginate("/c", Some("page=1"), &all);
    for query in [None, Some(""), Some("sort=name"), Some("page="), Some("page=abc"),
        Some("page=-1"), Some("page=1.0"), Some("page=0"), Some("page=00"), Some("page= 2"),
        Some("Page=2"), Some("page=99999999999999999999999999"), Some("page=2&broken")] {
        let page = paginate("/c", query, &all);
        assert_eq!(page.items, first.items, "query {:?}", query);
        assert_eq!(page.total_page_count, 3);
        assert!(page.next.is_some());
    }
}

#[test]
fn page_number_reads_the_parameter() {
    assert_eq!(page_number(&params(&[("page", "7")])), 7);
    assert_eq!(page_number(&params(&[("sort", "name"), ("page", "12")])), 12);
    assert_eq!(page_number(&params(&[("page", "+3")])), 3);
    assert_eq!(page_number(&params(&[("page", "03")])), 3);
    assert_eq!(page_number(&params(&[("page", "0")])), 1);
    assert_eq!(page_number(&params(&[("page", "")])), 1);
    assert_eq!(page_number(&params(&[("page", "two")])), 1);
    assert_eq!(page_number(&params(&[("pages", "2")])), 1);
    assert_eq!(page_number(&params(&[])), 1);
    let largest = usize::MAX.to_string();
    assert_eq!(page_number(&params(&[("page", &largest)])), usize::MAX);
}

#[test]
fn next_is_absent_from_the_last_page_on() {
    let all = catalog(45);
    for page in 1..=6 {
        let query = format!("page={}", page);
        let out = paginate("/c", Some(&query), &all);
        assert_eq!(out.next.is_none(), page >= out.total_page_count);
    }
}

#[test]
fn page_after_the_last_is_empty() {
    let all = catalog(45);
    let out = paginate("/c", Some("page=4"), &all);
    assert_eq!(out.total_page_count, 3);
    assert_eq!(out.items, vec![]);
    assert_eq!(out.next, None);
    let far = usize::MAX.to_string();
    let query = format!("page={}", far);
    let out = paginate("/c", Some(&query), &all);
    assert_eq!(out.items, vec![]);
    assert_eq!(out.next, None);
    assert_eq!(out.total_page_count, 3);
}

#[test]
fn empty_list_has_no_pages() {
    let out = paginate("/c", Some("page=1"), &[]);
    assert_eq!(out.total_page_count, 0);
    assert_eq!(out.items, vec![]);
    assert_eq!(out.next, None);
    let out = paginate("/c", None, &[]);
    assert_eq!(out, Paginated { total_page_count: 0, next: None, items: vec![] });
}

#[test]
fn full_last_page_has_no_next() {
    let all = catalog(40);
    let first = paginate("/c", None, &all);
    assert_eq!(first.total_page_count, 2);
    assert_eq!(first.items.len(), 20);
    assert_eq!(first.next, Some("/c?page=2".to_string()));
    let second = paginate("/c", Some("page=2"), &all);
    assert_eq!(second.items.len(), 20);
    assert_eq!(second.next, None);
    let single = paginate("/c", None, &catalog(20));
    assert_eq!(single.total_page_count, 1);
    assert_eq!(single.items.len(), 20);
    assert_eq!(single.next, None);
    let one = paginate("/c", None, &catalog(1));
    assert_eq!(one.total_page_count, 1);
    assert_eq!(one.items.len(), 1);
    assert_eq!(one.next, None);
}

#[test]
fn next_keeps_the_other_parameters() {
    let all = catalog(45);
    let out = paginate("/api/countries", Some("sort=name&page=1&dir=asc"), &all);
    assert_eq!(out.next, Some("/api/countries?sort=name&page=2&dir=asc".to_string()));
    let out = paginate("/api/countries", Some("sort=name"), &all);
    assert_eq!(out.next, Some("/api/countries?sort=name&page=2".to_string()));
    let out = paginate("/api/countries", Some("page=1&page=2"), &all);
    assert_eq!(out.next, Some("/api/countries?page=3".to_string()));
    let out = paginate("/api/countries", Some("page=x&q=a=b"), &all);
    assert_eq!(out.next, Some("/api/countries?page=2&q=a".to_string()));
}

#[test]
fn next_of_an_unreadable_query_holds_the_page_alone() {
    let all = catalog(45);
    let out = paginate("/api/countries", Some("sort=name&broken"), &all);
    assert_eq!(out.next, Some("/api/countries?page=2".to_string()));
    let out = paginate("", None, &all);
    assert_eq!(out.next, Some("?page=2".to_string()));
}

#[test]
fn next_counts_past_nine() {
    let all = catalog(250);
    let out = paginate("/c", Some("page=9"), &all);
    assert_eq!(out.next, Some("/c?page=10".to_string()));
    assert_eq!(out.items[0].cca3, "C160");
    let out = paginate("/c", Some("page=12"), &all);
    assert_eq!(out.next, Some("/c?page=13".to_string()));
    let out = paginate("/c", Some("page=13"), &all);
    assert_eq!(out.next, None);
    assert_eq!(out.items.len(), 10);
}

#[test]
fn following_next_walks_the_list() {
    let all = catalog(45);
    let mut seen = Vec::new();
    let mut query: Option<String> = Some("dir=asc".to_string());
    let mut steps = 0;
    loop {
        let out = paginate("/c", query.as_deref(), &all);
        seen.extend(out.items);
        steps += 1;
        match out.next {
            Some(link) => query = Some(link["/c?".len()..].to_string()),
            None => break,
        }
    }
    assert_eq!(steps, 3);
    assert_eq!(seen, all);
}

#[test]
fn all_lists_the_catalog_by_pages() {
    let everything = catalog(45);
    let out = all(&everything, "/api/countries", Some("page=3"));
    assert_eq!(out, paginate("/api/countries", Some("page=3"), &everything));
    assert_eq!(out.items.len(), 5);
    let out = all(&everything, "/api/countries", None);
    assert_eq!(out.next, Some("/api/countries?page=2".to_string()));
    assert_eq!(out.items, everything[..20].to_vec());
}

#[test]
fn items_are_whole_copies() {
    let everything = catalog(3);
    let out = paginate("/c", None, &everything);
    assert_eq!(out.items, everything);
    assert_eq!(out.items[2].gini, everything[2].gini);
    assert_eq!(out.items[2].name.native_name, everything[2].name.native_name);
}

#[test]
fn clone_of_a_page_is_the_page() {
    let everything = catalog(45);
    let page = paginate("/c", Some("page=2"), &everything);
    assert_eq!(page.clone(), page);
    let last = paginate("/c", Some("page=3"), &everything);
    assert_eq!(last.clone(), last);
    assert_eq!(last.clone().next, None);
}
