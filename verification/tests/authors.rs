use metadata::authors::{join_authors, split_authors, SEPARATOR};

fn names(list: &[&str]) -> Vec<String> {
    list.iter().map(|name| (*name).to_owned()).collect()
}

#[test]
fn split_gives_what_stands_between_the_commas() {
    assert_eq!(split_authors("Ada,Grace"), names(&["Ada", "Grace"]));
    assert_eq!(split_authors("Ada"), names(&["Ada"]));
    assert_eq!(split_authors("a,b,c"), names(&["a", "b", "c"]));
}

#[test]
fn split_keeps_empty_names_and_does_not_trim() {
    assert_eq!(split_authors(""), names(&[""]));
    assert_eq!(split_authors(","), names(&["", ""]));
    assert_eq!(split_authors("a,,b"), names(&["a", "", "b"]));
    assert_eq!(split_authors(" a , b "), names(&[" a ", " b "]));
    assert_eq!(split_authors("a,"), names(&["a", ""]));
    assert_eq!(split_authors(",a"), names(&["", "a"]));
}

#[test]
fn split_agrees_with_std() {
    for sample in ["", ",", ",,", "a", "é,ü", "日本,語,", " x ,y", "a,b,c,d,e", ",,a,,"] {
        let expected: Vec<String> = sample.split(',').map(ToOwned::to_owned).collect();
        assert_eq!(split_authors(sample), expected, "{sample:?}");
    }
}

#[test]
fn join_puts_a_comma_between_names() {
    assert_eq!(join_authors(&names(&["Ada", "Grace"])), "Ada,Grace");
    assert_eq!(join_authors(&names(&["Ada"])), "Ada");
    assert_eq!(join_authors(&names(&[])), "");
    assert_eq!(join_authors(&names(&["", ""])), ",");
    assert_eq!(join_authors(&names(&["a", "", "b"])), "a,,b");
}

#[test]
fn split_of_join_gives_the_names_back() {
    for list in [
        names(&["Ada"]),
        names(&["Ada", "Grace"]),
        names(&[""]),
        names(&["", ""]),
        names(&[" a ", "b", ""]),
        names(&["日本", "é"]),
    ] {
        assert_eq!(split_authors(&join_authors(&list)), list);
    }
}

#[test]
fn join_of_split_gives_the_text_back() {
    for sample in ["", ",", "a", "a,b", ",a,,b,", " x , y "] {
        assert_eq!(join_authors(&split_authors(sample)), sample);
    }
}

#[test]
fn a_comma_in_a_name_does_not_come_back() {
    let list = names(&["a,b", "c"]);
    let joined = join_authors(&list);
    assert_eq!(joined, "a,b,c");
    assert_eq!(split_authors(&joined), names(&["a", "b", "c"]));
    assert_ne!(split_authors(&joined), list);
}

#[test]
fn no_name_does_not_come_back_as_no_name() {
    let joined = join_authors(&names(&[]));
    assert_eq!(split_authors(&joined), names(&[""]));
}

#[test]
fn separator_is_a_comma() {
    assert_eq!(SEPARATOR, ',');
}
