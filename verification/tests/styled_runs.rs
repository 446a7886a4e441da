use gof_ui::Color;
use gof_ui::Style;
use gof_ui::StyledContent;

fn concat(sc: &StyledContent) -> String {
    let mut acc = String::new();
    for (piece, _) in sc.iter_chunks() {
        acc.push_str(&piece);
    }
    acc
}

#[test]
fn push_then_style_range_splits_chunks() {
    let mut sc = StyledContent::new();
    sc.push(String::from("abc"), Style::default());
    let red = Style::default().with(Color::Red);
    sc.style_range(1, 2, red);

    let pieces = sc.iter_chunks();
    assert_eq!(pieces.len(), 3);
    assert_eq!(pieces[0].0, "a");
    assert_eq!(pieces[0].1, Style::default());
    assert_eq!(pieces[1].0, "b");
    assert_eq!(pieces[1].1, red);
    assert_eq!(pieces[2].0, "c");
    assert_eq!(pieces[2].1, Style::default());
}

#[test]
fn iter_chunks_concat_reconstructs() {
    let mut sc = StyledContent::new();
    sc.push(String::from("hello "), Style::default());
    sc.push(String::from("world"), Style::default().with(Color::Blue));
    sc.style_range(2, 4, Style::default().with(Color::Green));
    sc.style_range(7, 9, Style::default().bold());

    assert_eq!(concat(&sc), "hello world");
    assert_eq!(sc.len(), 11);
}

#[test]
fn style_range_on_boundary_is_silent_noop() {
    let mut sc = StyledContent::from_styled(String::from("abcd"), Style::default());
    sc.style_range(0, 2, Style::default().with(Color::Red));

    let pieces = sc.iter_chunks();
    assert_eq!(pieces.len(), 1);
    assert_eq!(pieces[0].0, "abcd");
    assert_eq!(pieces[0].1, Style::default());
}

#[test]
fn style_range_across_chunks_drops_overridden() {
    let mut sc = StyledContent::new();
    sc.push(String::from("abc"), Style::default());
    sc.push(String::from("def"), Style::default().with(Color::Blue));
    let red = Style::default().with(Color::Red);
    sc.style_range(1, 5, red);

    let pieces = sc.iter_chunks();
    assert_eq!(pieces.len(), 3);
    assert_eq!(pieces[0].0, "a");
    assert_eq!(pieces[1].0, "bcde");
    assert_eq!(pieces[1].1, red);
    assert_eq!(pieces[2].0, "f");
    assert_eq!(concat(&sc), "abcdef");
}

#[test]
fn slice_trims_and_rebases() {
    let mut sc = StyledContent::new();
    sc.push(String::from("abc"), Style::default());
    sc.push(String::from("def"), Style::default().with(Color::Blue));

    let cut = sc.slice(2, 5);
    assert_eq!(concat(&cut), "cde");
    assert_eq!(cut.len(), 3);

    let pieces = cut.iter_chunks();
    assert_eq!(pieces.len(), 2);
    assert_eq!(pieces[0].0, "c");
    assert_eq!(pieces[1].0, "de");
}

#[test]
fn from_styled_is_one_chunk() {
    let st = Style::default().with(Color::Magenta);
    let sc = StyledContent::from_styled(String::from("xyz"), st);
    let pieces = sc.iter_chunks();
    assert_eq!(pieces.len(), 1);
    assert_eq!(pieces[0].0, "xyz");
    assert_eq!(pieces[0].1, st);
}

#[test]
fn empty_content_has_no_chunks() {
    let sc = StyledContent::new();
    assert_eq!(sc.len(), 0);
    assert_eq!(sc.iter_chunks().len(), 0);
}

#[test]
fn push_of_empty_text_changes_nothing() {
    let mut sc = StyledContent::new();
    sc.push(String::new(), Style::default().with(Color::Red));
    assert_eq!(sc.len(), 0);
    assert_eq!(sc.iter_chunks().len(), 0);

    sc.push(String::from("a"), Style::default());
    sc.push(String::new(), Style::default().with(Color::Red));
    assert_eq!(concat(&sc), "a");
    assert_eq!(sc.iter_chunks().len(), 1);
}

#[test]
fn slice_of_whole_row_is_identity() {
    let mut sc = StyledContent::new();
    sc.push(String::from("ab"), Style::default());
    sc.push(String::from("cd"), Style::default().with(Color::Blue));

    let cut = sc.slice(0, 4);
    assert_eq!(concat(&cut), "abcd");
    assert_eq!(cut.iter_chunks().len(), 2);

    let nothing = sc.slice(2, 2);
    assert_eq!(nothing.len(), 0);
    assert_eq!(nothing.iter_chunks().len(), 0);
}
