use std::fmt;

use web_sockets::enums::{value_in_coin, Coin, IPAddr, IPAddrKind, IPAddress, UsState};
use web_sockets::generics::{largest, largest_char, largest_i32, longest, Point};
use web_sockets::ownership::{
    calculate_length, calculate_length2, change, first_word, gives_ownership,
    takes_and_gives_ownership,
};
use web_sockets::structure::{
    area, area_dimensions, area_rectangle, build_user, Color, Rectangle,
};
use web_sockets::summary::{notify, notify2, Message, NewsArticle, Summary, Tweet};

#[test]
fn largest_of_numbers() {
    assert_eq!(largest_i32(&[34, 50, 25, 100, 65]), 100);
    assert_eq!(largest_i32(&[-3]), -3);
    assert_eq!(largest_i32(&[-3, -1, -2]), -1);
    assert_eq!(largest(&[34, 50, 25, 100, 65]), 100);
    assert_eq!(largest(&[7u8, 7, 7]), 7);
}

#[test]
fn largest_of_characters() {
    assert_eq!(largest_char(&['y', 'm', 'a', 'q']), 'y');
    assert_eq!(largest(&['y', 'm', 'a', 'q']), 'y');
    assert_eq!(largest_char(&['a', 'é', 'z']), 'é');
}

#[test]
fn largest_keeps_the_first_of_equals() {
    #[derive(Clone, Copy, Debug)]
    struct Keyed(u8, char);
    impl PartialEq for Keyed {
        fn eq(&self, other: &Keyed) -> bool {
            self.0 == other.0
        }
    }
    impl PartialOrd for Keyed {
        fn partial_cmp(&self, other: &Keyed) -> Option<std::cmp::Ordering> {
            self.0.partial_cmp(&other.0)
        }
    }
    let picked = largest(&[Keyed(1, 'a'), Keyed(3, 'b'), Keyed(3, 'c'), Keyed(2, 'd')]);
    assert_eq!(picked.1, 'b');
}

#[test]
fn point_gives_its_coordinates() {
    let point = Point { x: 30, y: 40 };
    assert_eq!(*point.x(), 30);
    assert_eq!(*point.y(), 40);
    let other = Point { x: "left", y: "right" };
    assert_eq!(*other.x(), "left");
    assert_eq!(*other.y(), "right");
}

#[test]
fn longest_compares_lengths_in_bytes() {
    assert_eq!(longest("abcde", "xyz"), "abcde");
    assert_eq!(longest("xyz", "abcde"), "abcde");
    assert_eq!(longest("abc", "xyz"), "xyz");
    assert_eq!(longest("é", "ab"), "ab");
    assert_eq!(longest("éé", "abc"), "éé");
}

#[test]
fn ownership_moves_strings_through() {
    assert_eq!(gives_ownership(), "yours");
    assert_eq!(takes_and_gives_ownership(String::from("hello")), "hello");
    assert_eq!(
        calculate_length(String::from("hello, world!")),
        (String::from("hello, world!"), 13)
    );
    assert_eq!(calculate_length(String::from("é")), (String::from("é"), 2));
    assert_eq!(calculate_length2(&String::from("hello")), 5);
    assert_eq!(calculate_length2(&String::new()), 0);
}

#[test]
fn change_appends_in_place() {
    let mut s = String::from("hello");
    change(&mut s);
    assert_eq!(s, "hello, world!");
    change(&mut s);
    assert_eq!(s, "hello, world!, world!");
}

#[test]
fn first_word_stops_at_the_first_space() {
    assert_eq!(first_word("hello world"), "hello");
    assert_eq!(first_word("hello"), "hello");
    assert_eq!(first_word(""), "");
    assert_eq!(first_word(" leading"), "");
    assert_eq!(first_word("héllo wörld again"), "héllo");
    assert_eq!(first_word("tab\tis no space"), "tab\tis");
}

#[test]
fn build_user_fills_in_the_rest() {
    let user = build_user(String::from("someone@example.com"), String::from("someone"));
    assert_eq!(user.email, "someone@example.com");
    assert_eq!(user.username, "someone");
    assert!(user.active);
    assert_eq!(user.sign_in_count, 1);
}

#[test]
fn areas_multiply_the_sides() {
    assert_eq!(area(30, 50), 1500);
    assert_eq!(area_dimensions((50, 50)), 2500);
    assert_eq!(area_rectangle(&Rectangle { width: 60, height: 60 }), 3600);
    assert_eq!(Rectangle { width: 80, height: 80 }.area(), 6400);
    assert_eq!(area(0, 7), 0);
    assert_eq!(area(65535, 65537), u32::MAX);
}

#[test]
fn rectangle_holds_only_smaller_ones() {
    let rect = Rectangle { width: 80, height: 80 };
    assert!(!rect.hold(&Rectangle { width: 100, height: 100 }));
    assert!(rect.hold(&Rectangle { width: 79, height: 10 }));
    assert!(!rect.hold(&Rectangle { width: 80, height: 10 }));
    assert!(!rect.hold(&Rectangle { width: 10, height: 80 }));
    assert_eq!(Rectangle::from(200, 100), Rectangle { width: 200, height: 100 });
    let black = Color(0, 0, 0);
    assert_eq!((black.0, black.1, black.2), (0, 0, 0));
}

#[test]
fn coins_have_their_values() {
    assert_eq!(value_in_coin(Coin::Penny), 1);
    assert_eq!(value_in_coin(Coin::Nickel), 5);
    assert_eq!(value_in_coin(Coin::Dime), 10);
    assert_eq!(value_in_coin(Coin::Quarter(UsState::Alabama)), 25);
    assert_eq!(value_in_coin(Coin::Quarter(UsState::Alaska)), 25);
}

#[test]
fn addresses_come_in_two_kinds() {
    let home = IPAddr { kind: IPAddrKind::v4, address: String::from("127.0.0.1") };
    let loopback = IPAddr { kind: IPAddrKind::v6, address: String::from("::1") };
    assert_ne!(home.kind, loopback.kind);
    assert_ne!(IPAddress::v4(127, 0, 0, 1), IPAddress::v6(String::from("::1")));
}

#[test]
fn summaries() {
    let tweet = Tweet {
        username: String::from("horse_ebooks"),
        content: String::from("of course, as you probably already know, people"),
    };
    assert_eq!(
        tweet.summarize(),
        "horse_ebooks: of course, as you probably already know, people"
    );
    let article = NewsArticle {
        headline: String::from("Penguins win the Stanley Cup Championship!"),
        location: String::from("Pittsburgh, PA, USA"),
        author: String::from("Iceburgh"),
    };
    assert_eq!(
        article.summarize(),
        "Penguins win the Stanley Cup Championship!, by Iceburgh (Pittsburgh, PA, USA)"
    );
    assert_eq!(Message {}.summarize(), "Read more...");
}

struct Bulletin(String);

impl Summary for Bulletin {
    fn summarize(&self) -> String {
        format!("bulletin: {}", self.0)
    }
}

impl fmt::Display for Bulletin {
    fn fmt(&self, f: &mut fmt::Formatter<'_>) -> fmt::Result {
        f.write_str(&self.0)
    }
}

struct Silent;

impl Summary for Silent {}

impl fmt::Display for Silent {
    fn fmt(&self, f: &mut fmt::Formatter<'_>) -> fmt::Result {
        f.write_str("silent")
    }
}

#[test]
fn notify_announces_the_summary() {
    assert_eq!(
        notify(Bulletin(String::from("storm"))),
        "Breaking news! bulletin: storm"
    );
    assert_eq!(notify(Silent), "Breaking news! Read more...");
}

#[test]
fn notify2_hands_both_back() {
    assert_eq!(notify2(1, "two"), (1, "two"));
    assert_eq!(notify2(String::from("a"), vec![1, 2]), (String::from("a"), vec![1, 2]));
}
