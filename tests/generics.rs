#[test]
#[allow(clippy::manual_swap)]
fn generics_in_function() {
    fn first_and_last_i32(list: &[i32]) -> Option<(&i32, &i32)> {
        Some((list.first()?, list.last()?))
    }

    fn first_and_last_f64(list: &[f64]) -> Option<(&f64, &f64)> {
        Some((list.first()?, list.last()?))
    }

    let s_i32 = &[1, 2, 3, 4, 5];
    println!(
        "first_and_last_i32({s_i32:?})={:?}",
        first_and_last_i32(s_i32)
    );

    let s_f64 = &[5.0, 4.0, 3.0, 2.0, 1.0];
    println!(
        "first_and_last_f64({s_f64:?})={:?}",
        first_and_last_f64(s_f64)
    );
}

#[test]
fn generics_in_functions_2() {
}

#[test]
fn generic_in_structure() {
    #[derive(Debug)]
    struct Point<T> {
        x: T,
        y: T,
    }

    let integer = Point { x: 5, y: 10 };
    let float = Point { x: 1.0, y: 4.0 };

    println!("integer={integer:?}");
    println!("float={float:?}");
}

#[test]
fn generic_in_structure_2() {
    #[derive(Debug)]
    struct Point<X, Y, Z> {
        x: X,
        y: Y,
        z: Z,
    }

    let mix = Point {
        x: 1u8,
        y: 42.0,
        z: Some(1337usize),
    };

    println!("mix={mix:?}");
}

#[test]
fn generic_in_structure_3() {
    #[derive(Debug)]
    struct Point<T> {
        x: T,
        y: T,
    }

    impl<T> Point<T> {
        fn swap(&mut self) {
            std::mem::swap(&mut self.x, &mut self.y);
        }
    }

    let mut integer = Point { x: 42, y: 1337 };
    println!("integer:{integer:?}");
    integer.swap();
    println!("swapped integer:{integer:?}");
    println!();

    let mut string = Point {
        x: "hello",
        y: "hola",
    };
    println!("string:{string:?}");
    string.swap();
    println!("swapped string:{string:?}");
}

#[test]
fn generic_structure_3() {
    #[derive(Debug)]
    struct Point<T> {
        x: T,
        y: T,
    }

    impl Point<&'static str> {
        fn concat(&self) -> String {
            let mut s = String::from(self.x);
            s.push_str(self.y);
            s
        }
    }

    let string = Point {
        x: "hello ",
        y: "world !",
    };

    println!("concat:{}", string.concat())
}

#[test]
fn generic_in_practice() {
    #[derive(Debug)]
    struct Fifo<T> {
        elements: Vec<T>,
    }

    impl<T> Fifo<T> {
        fn new() -> Self {
            Self {
                elements: Vec::new(),
            }
        }

        fn put(&mut self, item: T) {
            self.elements.insert(0, item);
        }

        fn pop(&mut self) -> Option<T> {
            self.elements.pop()
        }
    }

    let mut string_fifo = Fifo::new();
    string_fifo.put("hello");
    string_fifo.put("world !");
    println!("first out:{:?}", string_fifo.pop());
    println!("first out:{:?}", string_fifo.pop());
}
