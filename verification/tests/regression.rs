use safeness::parse::process_string;
use safeness::summary::SafenessSummary;

#[test]
fn hello_world() {
    let source = "
    fn main() {
        println!(\"hello world!\");
    }
    ";

    assert_eq!(
        process_string(source).unwrap(),
        SafenessSummary {
            safe_expressions: 2,
            unsafe_expressions: 0
        }
    );
}

#[test]
fn simple_unsafe_block() {
    let source = "
    fn main() {
        unsafe {
            unimplemented!();
        }
    }
    ";

    assert_eq!(
        process_string(source).unwrap(),
        SafenessSummary {
            safe_expressions: 1,
            unsafe_expressions: 1
        }
    );
}

#[test]
fn simple_unsafe_func() {
    let source = "\
unsafe fn foreign() {
    unimplemented!();
}

fn main() {

}
";

    assert_eq!(
        process_string(source).unwrap(),
        SafenessSummary {
            safe_expressions: 1,
            unsafe_expressions: 2
        }
    );
}

#[test]
fn compare_split_unsafe_blocks() {
    let source1 = "
fn main() {
  unsafe {
    foreign();
    foreign();
    foreign();
  }
}
";

    let source2 = "
fn main() {
  unsafe {
    foreign();
  }
  unsafe {
    foreign();
  }
  unsafe{
    foreign();
  }
}
";

    assert_eq!(
        process_string(source1).unwrap(),
        process_string(source2).unwrap()
    );
}
