use books_description_parser::{parse_books, strip_carriage_returns, Book, Grammar, Rule};

fn one_book(lines: &str) -> Book {
    let node = Grammar::parse(Rule::book, lines).expect("book should parse");
    assert_eq!(node.as_rule(), Rule::book);
    Book::from_pair(&node)
}

#[test]
fn extract_full_book() {
    let input = "Book 1: \"Test Book Title\"\nAuthors: [Author1, Author2]\nGenres: [Fiction, Adventure]\nPublication Year: 2023\nRating: 9.5\nPrice: 150.00 UAH\n";
    let book = one_book(input);
    assert_eq!(book.book_title, "Test Book Title");
    assert_eq!(book.authors, vec!["Author1".to_string(), "Author2".to_string()]);
    assert_eq!(book.genres, vec!["Fiction".to_string(), "Adventure".to_string()]);
    assert_eq!(book.publication_year, 2023);
    assert_eq!(book.rating, "9.5");
    assert_eq!(book.price, "150.00 UAH");
}

#[test]
fn extract_title_strips_quotes_only() {
    let input = "Book 1: \"Enemy Of My Enemy\"\nAuthors: []\nGenres: []\nPublication Year: 2016\nRating: 8\nPrice: 19 UAH\n";
    let book = one_book(input);
    assert_eq!(book.book_title, "Enemy Of My Enemy");
    assert_eq!(book.price, "19 UAH");
}

#[test]
fn extract_empty_lists() {
    let input = "Book 2: \"X\"\nAuthors: []\nGenres: []\nPublication Year: 0000\nRating: 0\nPrice: -5 EUR\n";
    let book = one_book(input);
    assert!(book.authors.is_empty());
    assert!(book.genres.is_empty());
    assert_eq!(book.publication_year, 0);
    assert_eq!(book.rating, "0");
    assert_eq!(book.price, "-5 EUR");
}

#[test]
fn extract_list_round_trip() {
    let input = "Book 1: \"T\"\nAuthors: [John Smith, Alice Smith]\nGenres: [Fantasy]\nPublication Year: 2024\nRating: 10.0\nPrice: 1 USD\n";
    let book = one_book(input);
    assert_eq!(
        book.authors,
        vec!["John Smith".to_string(), "Alice Smith".to_string()]
    );
    assert_eq!(book.genres, vec!["Fantasy".to_string()]);
    assert_eq!(book.rating, "10.0");
}

#[test]
fn extract_drops_items_empty_after_trim() {
    let input = "Book 1: \"T\"\nAuthors: [John,  ]\nGenres: [ Drama ]\nPublication Year: 1999\nRating: 5\nPrice: 10 USD\n";
    let book = one_book(input);
    assert_eq!(book.authors, vec!["John".to_string()]);
    assert_eq!(book.genres, vec!["Drama".to_string()]);
}

#[test]
fn extract_is_idempotent() {
    let input = "Book 7: \"Twice\"\nAuthors: [A, B, A]\nGenres: [G]\nPublication Year: 2001\nRating: 7.25\nPrice: 99.99 UAH\n";
    let node = Grammar::parse(Rule::book, input).expect("book should parse");
    let first = Book::from_pair(&node);
    let second = Book::from_pair(&node);
    assert_eq!(first, second);
    assert_eq!(first.authors, vec!["A".to_string(), "B".to_string(), "A".to_string()]);
}

#[test]
fn rating_boundaries() {
    assert!(Grammar::parse(Rule::rating_value, "0").is_ok());
    assert!(Grammar::parse(Rule::rating_value, "10").is_ok());
    assert!(Grammar::parse(Rule::rating_value, "10.0").is_ok());
    assert!(Grammar::parse(Rule::rating_value, "10.00").is_ok());
    assert!(Grammar::parse(Rule::rating_value, "9.99").is_ok());
    assert!(Grammar::parse(Rule::rating_value, "10.5").is_err());
    assert!(Grammar::parse(Rule::rating_value, "10.01").is_err());
    assert!(Grammar::parse(Rule::rating_value, "11").is_err());
    assert!(Grammar::parse(Rule::rating_value, "").is_err());
}

#[test]
fn currency_shape() {
    assert!(Grammar::parse(Rule::currency, "EUR").is_ok());
    assert!(Grammar::parse(Rule::currency, "eur").is_err());
    assert!(Grammar::parse(Rule::currency, "EU").is_err());
    assert!(Grammar::parse(Rule::currency, "E1R").is_err());
}

#[test]
fn failure_reports_rule_and_offset() {
    let err = Grammar::parse(Rule::currency, "12").expect_err("should fail");
    assert_eq!(err.rule(), Rule::currency);
    assert!(err.offset() <= 2);

    let err = Grammar::parse(Rule::books, "").expect_err("should fail");
    assert_eq!(err.rule(), Rule::books);
}

#[test]
fn parse_books_three_records() {
    let input = "Book 1: \"First Book\"\nAuthors: [Author1, Author2]\nGenres: [Fiction]\nPublication Year: 2020\nRating: 8.0\nPrice: 120.00 UAH\n\nBook 2: \"Second Book\"\nAuthors: [Author3]\nGenres: [Non-Fiction, Biography]\nPublication Year: 2021\nRating: 9.0\nPrice: 200.00 UAH\n\nBook 3: \"Third Book\"\nAuthors: [Author3]\nGenres: [Non-Fiction, Biography]\nPublication Year: 2020\nRating: 8.5\nPrice: 220.00 UAH\n";
    let records = parse_books(input).expect("document should parse");
    assert_eq!(records.len(), 3);
    assert_eq!(records[0].book_title, "First Book");
    assert_eq!(records[0].publication_year, 2020);
    assert_eq!(records[0].rating, "8.0");
    assert_eq!(records[0].price, "120.00 UAH");
    assert_eq!(records[1].book_title, "Second Book");
    assert_eq!(records[1].authors, vec!["Author3".to_string()]);
    assert_eq!(
        records[1].genres,
        vec!["Non-Fiction".to_string(), "Biography".to_string()]
    );
    assert_eq!(records[1].publication_year, 2021);
    assert_eq!(records[2].book_title, "Third Book");
    assert_eq!(records[2].price, "220.00 UAH");
}

#[test]
fn parse_books_rejects_truncated_document() {
    let input = "Book 1: \"First Book\"\nAuthors: [Author1]\nGenres: [Fiction]\nPublication Year: 2020\nRating: 8.0\nPrice: 120.00 UAH\n\nBook 2: \"Second Book\"\nAuthors: [Author3]\nGenres: [Biography]\nPublication Year: 2021\nRating: 9.0\n";
    let result = parse_books(input);
    assert!(result.is_err(), "truncated document must yield no records");
}

#[test]
fn parse_books_single_book() {
    let input = "Book 1: \"Only\"\nAuthors: [A]\nGenres: [B]\nPublication Year: 2022\nRating: 6\nPrice: 42.00 UAH\n";
    let records = parse_books(input).expect("document should parse");
    assert_eq!(records.len(), 1);
    assert_eq!(records[0].book_title, "Only");
    assert_eq!(records[0].publication_year, 2022);
}

#[test]
fn strip_carriage_returns_normalizes() {
    assert_eq!(strip_carriage_returns("a\r\nb\r\n"), "a\nb\n");
    assert_eq!(strip_carriage_returns("no returns"), "no returns");
    assert_eq!(strip_carriage_returns("\r\r"), "");
}

#[test]
fn book_children_are_the_six_fields() {
    let input = "Book 1: \"T\"\nAuthors: [A]\nGenres: [G]\nPublication Year: 2000\nRating: 1\nPrice: 2 ABC\n";
    let node = Grammar::parse(Rule::book, input).expect("book should parse");
    let kinds: Vec<Rule> = node.children().iter().map(|c| c.as_rule()).collect();
    assert_eq!(
        kinds,
        vec![
            Rule::book_title,
            Rule::list_of_authors,
            Rule::list_of_genres,
            Rule::publication_year,
            Rule::rating,
            Rule::price,
        ]
    );
    let title = &node.children()[0];
    assert_eq!(title.children()[2].as_str(), "\"T\"");
}
