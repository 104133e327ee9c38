#[test]
#[allow(clippy::needless_return)]
fn basic_functions() {
    fn greet() {
        println!("Hello, world!");
    }

    fn greet_person(name: &str) {
        println!("Hello, {name}!");
    }

    fn add(a: i32, b: i32) -> i32 {
        a + b
    }

    fn multiply(a: i32, b: i32) -> i32 {
        return a * b;
    }

    greet();
    greet_person("Alice");
    let sum = add(2, 3);
    let product = multiply(4, 5);

    println!("2 + 3 = {sum}");
    println!("4 * 5 = {product}");
}

#[test]
fn function_parameters() {
    fn create_point(x: i32, y: i32) -> (i32, i32) {
        (x, y)
    }

    let point1 = create_point(10, 20);
    println!("Point 1: ({}, {})", point1.0, point1.1);
}

#[test]
fn function_returns() {
    fn min_max(a: i32, b: i32) -> (i32, i32) {
        if a < b { (a, b) } else { (b, a) }
    }

    let (min, max) = min_max(15, 10);
    println!("Min: {min}, Max: {max}");

    fn is_even(num: i32) -> bool {
        if num % 2 == 0 {
            return true;
        }
        false
    }

    println!("Is 4 even? {}", is_even(4));
    println!("Is 5 even? {}", is_even(5));
}

#[test]
fn closures() {
    let add = |a: i32, b: i32| -> i32 { a + b };
    println!("3 + 4 = {}", add(3, 4));

    let multiply = |a, b| a * b;
    println!("3 * 4 = {}", multiply(3, 4));

    let factor = 2;
    let scaled_add = |a, b| (a + b) * factor;
    println!("(3 + 4) * 2 = {}", scaled_add(3, 4));
}
