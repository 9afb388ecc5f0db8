//! Installed applications: how one entry of the uninstall registry becomes a
//! line of the inventory.

use vstd::prelude::*;
use vstd::string::*;
use vstd::utf8::{encode_utf8, is_ascii_chars};
use crate::text::{lines_of, push_char, push_text, text_lines, text_words, words_of};

verus! {

/// One installed application.
pub struct InstalledApp {
    pub identifying_number: String,
    pub install_date: String,
    pub install_location: String,
    pub name: String,
    pub vendor: String,
    pub version: String,
}

/// What stands for a value that the registry does not give.
pub open spec fn not_available() -> Seq<char> {
    seq!['N', '/', 'A']
}

/// What stands for a publisher or version that the registry does not give.
pub open spec fn unknown() -> Seq<char> {
    seq!['U', 'n', 'k', 'n', 'o', 'w', 'n']
}

/// Whether cutting `date` at its fourth and sixth byte cuts between
/// characters: it is plain ASCII, or it is not eight bytes long and is not cut
/// at all.
pub open spec fn cuts_cleanly(date: Seq<char>) -> bool {
    is_ascii_chars(date) || encode_utf8(date).len() != 8
}

/// An eight-character ASCII date `YYYYMMDD` as `DD-MM-YYYY`; anything else
/// is not a date.
pub open spec fn date_text(date: Seq<char>) -> Seq<char> {
    if is_ascii_chars(date) && date.len() == 8 {
        date.subrange(6, 8) + seq!['-'] + date.subrange(4, 6) + seq!['-'] + date.subrange(0, 4)
    } else {
        not_available()
    }
}

/// Turns the registry's `YYYYMMDD` into `DD-MM-YYYY`. A text of another
/// length gives `N/A`. The text is cut by bytes, so one of eight bytes has
/// to be plain ASCII.
pub fn format_date(date: &str) -> (text: String)
    requires
        cuts_cleanly(date@),
    ensures
        text@ == date_text(date@),
{
    if date.as_bytes().len() == 8 {
        proof {
            assert(date.spec_bytes() == encode_utf8(date@));
            assert(is_ascii(date));
            is_ascii_spec_bytes(date);
            assert(date@.len() == date.spec_bytes().len());
        }
        let mut text = String::new();
        push_text(&mut text, date.substring_ascii(6, 8));
        push_char(&mut text, '-');
        push_text(&mut text, date.substring_ascii(4, 6));
        push_char(&mut text, '-');
        push_text(&mut text, date.substring_ascii(0, 4));
        assert(text@ =~= date_text(date@));
        text
    } else {
        proof {
            reveal_strlit("N/A");
            if is_ascii(date) {
                is_ascii_spec_bytes(date);
                assert(date@.len() == date.spec_bytes().len());
            }
        }
        let text = "N/A".to_owned();
        assert(text@ =~= not_available());
        text
    }
}

/// The identifying number that the installer database has for `name`: that
/// of the first pair with this name, or `N/A` where no pair has it.
/// Each pair is a name and its identifying number.
pub open spec fn number_for(name: Seq<char>, known: Seq<(String, String)>) -> Seq<char>
    decreases known.len(),
{
    if known.len() == 0 {
        not_available()
    } else if known.first().0@ == name {
        known.first().1@
    } else {
        number_for(name, known.drop_first())
    }
}

/// Computes `number_for`.
pub fn identifying_number(name: &String, known: &Vec<(String, String)>) -> (number: String)
    ensures
        number@ == number_for(name@, known@),
{
    let mut i: usize = 0;
    assert(known@.skip(0) =~= known@);
    while i < known.len()
        invariant
            i <= known@.len(),
            number_for(name@, known@) == number_for(name@, known@.skip(i as int)),
        decreases known@.len() - i,
    {
        let ghost rest = known@.skip(i as int);
        assert(rest.first() == known@[i as int]);
        assert(rest.drop_first() =~= known@.skip(i + 1));
        if known[i].0 == *name {
            return known[i].1.clone();
        }
        i = i + 1;
    }
    assert(known@.skip(i as int).len() == 0);
    let number = "N/A".to_owned();
    proof {
        reveal_strlit("N/A");
        assert(number@ =~= not_available());
    }
    number
}

/// The characters of an optional text, or `fallback` where there is none.
pub open spec fn text_or(value: Option<String>, fallback: Seq<char>) -> Seq<char> {
    match value {
        Some(s) => s@,
        None => fallback,
    }
}

/// What `describe_app` makes of a registry entry with a display name.
pub open spec fn described(
    app: InstalledApp,
    name: String,
    install_date: Option<String>,
    install_location: Option<String>,
    publisher: Option<String>,
    display_version: Option<String>,
    known: Seq<(String, String)>,
) -> bool {
    &&& app.name@ == name@
    &&& app.identifying_number@ == number_for(name@, known)
    &&& app.install_date@ == (match install_date {
        Some(d) => date_text(d@),
        None => not_available(),
    })
    &&& app.install_location@ == text_or(install_location, not_available())
    &&& app.vendor@ == text_or(publisher, unknown())
    &&& app.version@ == text_or(display_version, unknown())
}

/// Makes the inventory line of one registry entry from the values read
/// under it. An entry without a display name is no application. A missing
/// date or location reads `N/A`, a missing publisher or version `Unknown`.
pub fn describe_app(
    name: String,
    install_date: Option<String>,
    install_location: Option<String>,
    publisher: Option<String>,
    display_version: Option<String>,
    known: &Vec<(String, String)>,
) -> (app: Option<InstalledApp>)
    requires
        install_date.is_some() ==> cuts_cleanly(install_date.unwrap()@),
    ensures
        app.is_none() <==> name@.len() == 0,
        app.is_some() ==> described(
            app.unwrap(),
            name,
            install_date,
            install_location,
            publisher,
            display_version,
            known@,
        ),
{
    if name.as_str().is_empty() {
        return None;
    }
    proof {
        reveal_strlit("N/A");
        reveal_strlit("Unknown");
    }
    let identifying_number = identifying_number(&name, known);
    let date: String = match &install_date {
        Some(d) => format_date(d.as_str()),
        None => {
            let t = "N/A".to_owned();
            assert(t@ =~= not_available());
            t
        },
    };
    let location: String = match &install_location {
        Some(l) => l.clone(),
        None => {
            let t = "N/A".to_owned();
            assert(t@ =~= not_available());
            t
        },
    };
    let vendor: String = match &publisher {
        Some(p) => p.clone(),
        None => {
            let t = "Unknown".to_owned();
            assert(t@ =~= unknown());
            t
        },
    };
    let version: String = match &display_version {
        Some(v) => v.clone(),
        None => {
            let t = "Unknown".to_owned();
            assert(t@ =~= unknown());
            t
        },
    };
    Some(
        InstalledApp {
            identifying_number,
            install_date: date,
            install_location: location,
            name,
            vendor,
            version,
        },
    )
}

/// The words from the second on, with one space between each two.
pub open spec fn joined_tail(words: Seq<String>) -> Seq<char>
    decreases words.len(),
{
    if words.len() <= 1 {
        Seq::empty()
    } else if words.len() == 2 {
        words[1]@
    } else {
        joined_tail(words.drop_last()) + seq![' '] + words.last()@
    }
}

/// The name of the product that a line of words lists: `joined_tail` over
/// the words' characters.
pub open spec fn name_in(words: Seq<Seq<char>>) -> Seq<char>
    decreases words.len(),
{
    if words.len() <= 1 {
        Seq::empty()
    } else if words.len() == 2 {
        words[1]
    } else {
        name_in(words.drop_last()) + seq![' '] + words.last()
    }
}

/// The products that the lines of a listing name, as pairs of name and
/// identifying number: the first line is the heading, and each later line of
/// two words or more lists one product.
pub open spec fn products_in(lines: Seq<Seq<char>>) -> Seq<(Seq<char>, Seq<char>)>
    decreases lines.len(),
{
    if lines.len() <= 1 {
        Seq::empty()
    } else if words_of(lines.last()).len() >= 2 {
        products_in(lines.drop_last()).push(
            (name_in(words_of(lines.last())), words_of(lines.last())[0]),
        )
    } else {
        products_in(lines.drop_last())
    }
}

/// The views of a sequence of pairs of strings.
pub open spec fn pairs_of(pairs: Seq<(String, String)>) -> Seq<(Seq<char>, Seq<char>)> {
    Seq::new(pairs.len(), |i: int| (pairs[i].0@, pairs[i].1@))
}

/// `joined_tail` of strings is `name_in` of their characters.
proof fn lemma_joined_tail_is_name(words: Seq<String>, chars: Seq<Seq<char>>)
    requires
        words.len() == chars.len(),
        forall|i: int| 0 <= i < words.len() ==> (#[trigger] words[i])@ == chars[i],
    ensures
        joined_tail(words) == name_in(chars),
    decreases words.len(),
{
    if words.len() > 2 {
        lemma_joined_tail_is_name(words.drop_last(), chars.drop_last());
    }
}

/// Reads the installer database's listing of products: name and
/// identifying number of each product listed under the heading.
pub fn parse_msi_products(listing: &str) -> (products: Vec<(String, String)>)
    ensures
        pairs_of(products@) == products_in(lines_of(listing@)),
{
    let lines = text_lines(listing);
    let ghost all = lines_of(listing@);
    let mut products: Vec<(String, String)> = Vec::new();
    let n: usize = lines.len();
    if n <= 1 {
        assert(pairs_of(products@) =~= products_in(all));
        return products;
    }
    let mut i: usize = 1;
    assert(pairs_of(products@) =~= products_in(all.take(1)));
    while i < n
        invariant
            1 <= i <= n,
            n == lines@.len(),
            n == all.len(),
            forall|k: int| 0 <= k < n ==> (#[trigger] lines@[k])@ == all[k],
            pairs_of(products@) == products_in(all.take(i as int)),
        decreases n - i,
    {
        proof {
            assert(all.take(i + 1).drop_last() =~= all.take(i as int));
            assert(all.take(i + 1).last() == all[i as int]);
        }
        let words = text_words(lines[i].as_str());
        let ghost before = products@;
        match msi_product(&words) {
            Some(product) => {
                proof {
                    lemma_joined_tail_is_name(words@, words_of(all[i as int]));
                }
                products.push(product);
                assert(pairs_of(products@) =~= pairs_of(before).push(
                    (name_in(words_of(all[i as int])), words_of(all[i as int])[0]),
                ));
            },
            None => {},
        }
        i = i + 1;
    }
    assert(all.take(n as int) =~= all);
    products
}

/// Reads one line of the installer database's listing, given as its words:
/// the first word is the identifying number, the rest is the name. A line of
/// fewer than two words lists no product. The pair is name, then number.
pub fn msi_product(words: &Vec<String>) -> (product: Option<(String, String)>)
    ensures
        product.is_some() <==> words@.len() >= 2,
        product.is_some() ==> product.unwrap().0@ == joined_tail(words@) && product.unwrap().1@
            == words@[0]@,
{
    let n: usize = words.len();
    if n < 2 {
        return None;
    }
    let mut name = String::new();
    push_text(&mut name, words[1].as_str());
    assert(words@.take(2) =~= seq![words@[0], words@[1]]);
    assert(name@ =~= joined_tail(words@.take(2)));
    let mut i: usize = 2;
    while i < n
        invariant
            2 <= i <= n,
            n == words@.len(),
            name@ == joined_tail(words@.take(i as int)),
        decreases n - i,
    {
        proof {
            assert(words@.take(i + 1).drop_last() =~= words@.take(i as int));
            assert(words@.take(i + 1).last() == words@[i as int]);
        }
        push_char(&mut name, ' ');
        push_text(&mut name, words[i].as_str());
        assert(name@ =~= joined_tail(words@.take(i + 1)));
        i = i + 1;
    }
    assert(words@.take(n as int) =~= words@);
    Some((name, words[0].clone()))
}

} // verus!
