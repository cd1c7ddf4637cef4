use kon::kon_parser;
use kon::konc_parser;

#[test]
fn core_test_simple() {
    let source = r#"
    let prefix = "Hello, ";
    let name = "World and " * 2;
    let name2 = "World";

    enum IceCream {
      .Chocolate,
      .Strawberry
    }

    fn (cream: IceCream) to_string() {
      switch (cream) {
        .Chocolate => "chocolate",
        .Strawberry => "strawberry"
      }

      10
    }

    struct User {
      name: string
    }

    fn (u: User) greet() {
      let a = (1 + 10) * 2;
      println("hello, \(u.name)! Number: \(a)");
    }

    interface ToString {
      fn to_string(name: string);
    }
    "#;

    match kon_parser::program(source) {
        Ok(_) => (),
        Err(e) => {
            panic!("parse error: {}", e.offset);
        }
    }
}

fn konc_parse(src: &str) {
    match konc_parser::program(src) {
        Ok(_) => (),
        Err(e) => {
            panic!("parse error: {}", e.offset);
        }
    }
}

#[test]
fn parser_test_simple() {
    let src = r#"
    let prefix = "Hello, ";
    let name = "World and " * 2;
    let name2 = "World";

    enum IceCream {
      .Chocolate,
      .Strawberry
    }

    fn [alloca] IceCream.to_string() -> string {
      switch (cream) {
        .Chocolate => "chocolate",
        .Strawberry => "strawberry"
      }
    }

    struct User {
      name: string
    }

    interface ToString {
      fn to_string(name: *const string.string);
    }
    "#;

    konc_parse(src);
}

#[test]
fn test_extern() {
    let src = r#"
        extern "C" {
            #include <stdio.h>
            fn blyatt => suka();
            fn "blyatt" => suka();
        }"#;

    konc_parse(src);
}
