use auto_api::error::MacroError;
use auto_api::model::RefOrObject;
use auto_api::path::{expand_reference, Path, PathEntry, PathMap};

fn path(segments: &[&str]) -> Path {
    Path(segments.iter().map(|it| it.to_string()).collect())
}

fn pointer(to: &str) -> RefOrObject<u32> {
    RefOrObject::Ref { ref_path: to.to_string() }
}

fn index(entries: Vec<(&str, RefOrObject<u32>)>) -> PathMap<u32> {
    PathMap {
        entries: entries
            .into_iter()
            .map(|(at, target)| PathEntry { path: Path::from_ref(at).unwrap(), target })
            .collect(),
    }
}

#[test]
fn path_is_what_stands_between_the_slashes() {
    assert_eq!(Path::from_ref("#/components/schemas/Pet"), Ok(path(&["components", "schemas", "Pet"])));
    assert_eq!(Path::from_ref("#"), Ok(path(&[])));
    assert_eq!(Path::from_ref("#/"), Ok(path(&[""])));
    assert_eq!(Path::from_ref("#/a//b"), Ok(path(&["a", "", "b"])));
    assert_eq!(Path::from_ref("#/a").unwrap().len(), 1);
}

#[test]
fn pointer_written_another_way_is_invalid() {
    for reference in ["#a/b", "#ignored/a//b", "#a", "##", "# /a"] {
        assert_eq!(
            Path::from_ref(reference),
            Err(MacroError::InvalidReference(reference.to_string()))
        );
    }
    let map = index(vec![("#/b", RefOrObject::Object(1))]);
    assert_eq!(
        expand_reference(&map, &pointer("#a/b")),
        Err(MacroError::InvalidReference("#a/b".to_string()))
    );
}

#[test]
fn path_out_of_the_document_is_refused() {
    let refused =
        Err(MacroError::UnimplementedFeature("non-local references are unsupported".to_string()));
    assert_eq!(Path::from_ref("other.yaml#/a"), refused);
    assert_eq!(Path::from_ref(""), refused);
    assert_eq!(Path::from_ref("/a"), refused);
}

#[test]
fn push_adds_a_segment() {
    assert_eq!(path(&["a"]).push("b"), path(&["a", "b"]));
    assert_eq!(Path::default().push("").push("x"), path(&["", "x"]));
    assert!(path(&["a", "b"]).same(&Path::from_ref("#/a/b").unwrap()));
    assert!(!path(&["a", "b"]).same(&path(&["a"])));
    assert!(!path(&["a", "b"]).same(&path(&["a", "c"])));
}

#[test]
fn item_stands_for_itself() {
    let map = index(vec![]);
    let item = RefOrObject::Object(7u32);
    assert_eq!(expand_reference(&map, &item), Ok(&7));
}

#[test]
fn pointer_is_followed_to_the_item() {
    let map = index(vec![
        ("#/a", pointer("#/b")),
        ("#/b", pointer("#/c")),
        ("#/c", RefOrObject::Object(3)),
        ("#/c", RefOrObject::Object(4)),
    ]);
    assert_eq!(expand_reference(&map, &pointer("#/a")), Ok(&3));
    assert_eq!(expand_reference(&map, &pointer("#/c")), Ok(&3));
    assert_eq!(map.get(&path(&["b"])), Some(&pointer("#/c")));
    assert_eq!(map.get(&path(&["d"])), None);
    assert_eq!(PathMap::<u32>::new().entries.len(), 0);
}

#[test]
fn pointer_that_leads_nowhere_is_invalid() {
    let map = index(vec![("#/a", pointer("#/missing")), ("#/out", pointer("other.yaml#/a"))]);
    assert_eq!(
        expand_reference(&map, &pointer("#/a")),
        Err(MacroError::InvalidReference("#/missing".to_string()))
    );
    assert_eq!(
        expand_reference(&map, &pointer("#/nothing")),
        Err(MacroError::InvalidReference("#/nothing".to_string()))
    );
    assert_eq!(
        expand_reference(&map, &pointer("#/out")),
        Err(MacroError::UnimplementedFeature("non-local references are unsupported".to_string()))
    );
}

#[test]
fn pointers_in_a_circle_are_invalid() {
    let map = index(vec![("#/a", pointer("#/b")), ("#/b", pointer("#/a"))]);
    assert_eq!(
        expand_reference(&map, &pointer("#/a")),
        Err(MacroError::InvalidReference("#/a".to_string()))
    );
    let itself = index(vec![("#/a", pointer("#/a"))]);
    assert_eq!(
        expand_reference(&itself, &pointer("#/a")),
        Err(MacroError::InvalidReference("#/a".to_string()))
    );
}
