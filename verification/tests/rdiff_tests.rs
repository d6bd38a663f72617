use deet::grid::Grid;
use deet::rdiff::{diff_lines, lcs, DiffLine};

#[test]
fn test_lcs() {
    let mut expected = Grid::new(5, 4);
    expected.set(1, 1, 1).unwrap();
    expected.set(1, 2, 1).unwrap();
    expected.set(1, 3, 1).unwrap();
    expected.set(2, 1, 1).unwrap();
    expected.set(2, 2, 1).unwrap();
    expected.set(2, 3, 2).unwrap();
    expected.set(3, 1, 1).unwrap();
    expected.set(3, 2, 1).unwrap();
    expected.set(3, 3, 2).unwrap();
    expected.set(4, 1, 1).unwrap();
    expected.set(4, 2, 2).unwrap();
    expected.set(4, 3, 2).unwrap();

    println!("Expected:");
    display(&expected);
    let result = lcs(
        &"abcd".chars().map(|c| c.to_string()).collect(),
        &"adb".chars().map(|c| c.to_string()).collect(),
    );
    println!("Got:");
    display(&result);
    assert_eq!(result.size(), expected.size());
    for row in 0..expected.size().0 {
        for col in 0..expected.size().1 {
            assert_eq!(result.get(row, col), expected.get(row, col));
        }
    }
}

fn display(grid: &Grid) {
    let (rows, cols) = grid.size();
    for r in 0..rows {
        let mut line = String::new();
        for c in 0..cols {
            line.push_str(&format!("{} ", grid.get(r, c).unwrap()));
        }
        println!("{}", line);
    }
}

#[test]
fn grid_set_get_round_trip() {
    let mut g = Grid::new(3, 3);
    assert_eq!(g.get(0, 0), Some(0));
    g.set(1, 2, 42).unwrap();
    assert_eq!(g.get(1, 2), Some(42));
    assert_eq!(g.get(2, 1), Some(0));
    assert_eq!(g.get(3, 0), None);
    assert_eq!(g.get(0, 3), None);
    assert!(g.set(3, 3, 7).is_err());
    assert_eq!(g.size(), (3, 3));
}

#[test]
fn diff_script_of_small_change() {
    let lines1: Vec<String> = vec!["a".to_string(), "b".to_string()];
    let lines2: Vec<String> = vec!["a".to_string(), "c".to_string()];
    let table = lcs(&lines1, &lines2);
    let script = diff_lines(&table, &lines1, &lines2, 2, 2);
    assert_eq!(script.len(), 4);
    assert!(matches!(&script[0], DiffLine::Start));
    match &script[1] {
        DiffLine::Same(s) => assert_eq!(s, "a"),
        _ => panic!("expected a shared line"),
    }
    match &script[2] {
        DiffLine::Removed(s) => assert_eq!(s, "b"),
        _ => panic!("expected a removed line"),
    }
    match &script[3] {
        DiffLine::Added(s) => assert_eq!(s, "c"),
        _ => panic!("expected an added line"),
    }
}

#[test]
fn lcs_of_empty_inputs() {
    let empty: Vec<String> = Vec::new();
    let table = lcs(&empty, &empty);
    assert_eq!(table.size(), (1, 1));
    assert_eq!(table.get(0, 0), Some(0));
}
