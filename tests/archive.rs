use kragle::plan::Step;
use kragle::repo::{check_written, decode_content, ChecksumOutcome, Entry, Repo};

fn file(name: &str, bytes: &[u8]) -> Entry {
    Entry::File {
        name: name.to_string(),
        bytes: bytes.to_vec(),
    }
}

fn dir(name: &str, entries: Vec<Entry>) -> Entry {
    Entry::Dir {
        name: name.to_string(),
        entries,
    }
}

fn content_of(r: &Repo) -> (String, Option<bool>, Option<String>, Option<u64>) {
    match r {
        Repo::File {
            content,
            is_compressed,
            original_md5,
            original_size,
            ..
        } => (
            content.clone(),
            *is_compressed,
            original_md5.clone(),
            *original_size,
        ),
        _ => panic!("not a file"),
    }
}

#[test]
fn create_file() {
    let content = "Hello, World!";
    let md5_checksum = "65a8e27d8879283831b664bd8b7f0ad4".to_string();
    let repo = Repo::File {
        name: "file.txt".to_string(),
        is_compressed: Some(false),
        content: content.to_string(),
        original_size: Some(0),
        original_md5: Some(md5_checksum),
        is_optional: Some(false),
    };
    let steps = repo.to_folder();
    assert_eq!(steps.len(), 1);
    match &steps[0] {
        Step::WriteFile {
            path,
            bytes,
            expected_md5,
        } => {
            assert_eq!(path, &vec!["file.txt".to_string()]);
            let written = bytes.clone().unwrap();
            assert_eq!(String::from_utf8(written.clone()).unwrap(), content);
            assert!(matches!(
                check_written(expected_md5, &written),
                ChecksumOutcome::Verified
            ));
        }
        _ => panic!("expected a file write"),
    }
}

#[test]
fn create_directory() {
    let repo = Repo::Directory {
        name: "dir".to_string(),
        children: vec![],
        dependencies: None,
        description: None,
    };
    let steps = repo.to_folder();
    assert_eq!(steps.len(), 1);
    match &steps[0] {
        Step::MakeDir { path } => assert_eq!(path, &vec!["dir".to_string()]),
        _ => panic!("expected a directory"),
    }
}

#[test]
fn text_round_trip_is_byte_identical() {
    let raw = b"hello\n".to_vec();
    let r = Repo::encode_file(&"notes.txt".to_string(), &raw, false);
    let (content, packed, md5, size) = content_of(&r);
    assert_eq!(content, "hello\n");
    assert_eq!(packed, Some(false));
    assert_eq!(md5.as_deref(), Some("b1946ac92492d2347c6235b4d2611184"));
    assert_eq!(size, Some(6));
    let back = decode_content(&content, packed).unwrap();
    assert_eq!(back, raw);
    assert!(matches!(check_written(&md5, &back), ChecksumOutcome::Verified));
}

#[test]
fn compressed_round_trip_is_byte_identical() {
    let raw: Vec<u8> = (0..2000u32).map(|i| (i % 251) as u8).collect();
    let r = Repo::encode_file(&"data.txt".to_string(), &raw, true);
    let (content, packed, md5, size) = content_of(&r);
    assert_eq!(packed, Some(true));
    assert_eq!(size, Some(2000));
    assert_ne!(content.as_bytes(), &raw[..]);
    assert!(base85::decode(&content).is_ok());
    let back = decode_content(&content, packed).unwrap();
    assert_eq!(back, raw);
    assert!(matches!(check_written(&md5, &back), ChecksumOutcome::Verified));
}

#[test]
fn png_is_compressed_without_being_asked() {
    let raw = vec![0x89u8, b'P', b'N', b'G', 0, 1, 2, 255];
    let r = Repo::encode_file(&"photo.png".to_string(), &raw, false);
    let (content, packed, _, _) = content_of(&r);
    assert_eq!(packed, Some(true));
    assert_eq!(decode_content(&content, packed).unwrap(), raw);
}

#[test]
fn binary_extensions() {
    assert!(Repo::is_binary("photo.png"));
    assert!(Repo::is_binary("PHOTO.PNG"));
    assert!(Repo::is_binary("backup.tar.gz"));
    assert!(Repo::is_binary("font.woff2"));
    assert!(!Repo::is_binary("notes.txt"));
    assert!(!Repo::is_binary(".png"));
    assert!(!Repo::is_binary("png"));
    assert!(!Repo::is_binary("archive."));
}

#[test]
fn folder_encoding_keeps_order_and_names_root() {
    let tree = dir(
        "project",
        vec![
            file("b.txt", b"bee"),
            dir("sub", vec![file("a.txt", b"")]),
            file("a.txt", b"ay"),
        ],
    );
    let r = Repo::from_folder(&tree, false, 0).unwrap();
    match r {
        Repo::Directory {
            name,
            children,
            dependencies,
            description,
        } => {
            assert_eq!(name, ".");
            assert!(dependencies.is_none());
            assert!(description.is_none());
            assert_eq!(children.len(), 3);
            match &children[0] {
                Repo::File { name, content, .. } => {
                    assert_eq!(name, "b.txt");
                    assert_eq!(content, "bee");
                }
                _ => panic!("expected a file"),
            }
            match &children[1] {
                Repo::Directory { name, children, .. } => {
                    assert_eq!(name, "sub");
                    assert_eq!(children.len(), 1);
                    let (_, _, md5, size) = content_of(&children[0]);
                    assert_eq!(md5.as_deref(), Some("d41d8cd98f00b204e9800998ecf8427e"));
                    assert_eq!(size, Some(0));
                }
                _ => panic!("expected a directory"),
            }
        }
        _ => panic!("expected a directory"),
    }
    let nested = Repo::from_folder(&tree, false, 2).unwrap();
    match nested {
        Repo::Directory { name, .. } => assert_eq!(name, "project"),
        _ => panic!("expected a directory"),
    }
}

#[test]
fn from_folder_refuses_a_file() {
    assert!(Repo::from_folder(&file("a.txt", b"x"), false, 0).is_none());
}

#[test]
fn folder_round_trip_through_plan() {
    let tree = dir("root", vec![file("a.txt", b"alpha"), file("b.bin", &[0, 1, 2, 3])]);
    let r = Repo::from_folder(&tree, false, 0).unwrap();
    let steps = r.to_folder();
    assert_eq!(steps.len(), 3);
    match &steps[0] {
        Step::MakeDir { path } => assert_eq!(path, &vec![".".to_string()]),
        _ => panic!("expected a directory"),
    }
    let expect: [(&str, &[u8]); 2] = [("a.txt", b"alpha"), ("b.bin", &[0, 1, 2, 3])];
    for (k, (name, raw)) in expect.iter().enumerate() {
        match &steps[k + 1] {
            Step::WriteFile {
                path,
                bytes,
                expected_md5,
            } => {
                assert_eq!(path, &vec![".".to_string(), name.to_string()]);
                let b = bytes.clone().unwrap();
                assert_eq!(&b[..], *raw);
                assert!(matches!(
                    check_written(expected_md5, &b),
                    ChecksumOutcome::Verified
                ));
            }
            _ => panic!("expected a file write"),
        }
    }
}

#[test]
fn checksum_mismatch_still_writes() {
    let repo = Repo::File {
        name: "edited.txt".to_string(),
        content: "changed by hand".to_string(),
        original_size: Some(15),
        original_md5: Some("00000000000000000000000000000000".to_string()),
        is_compressed: Some(false),
        is_optional: Some(false),
    };
    let steps = repo.to_folder();
    assert_eq!(steps.len(), 1);
    match &steps[0] {
        Step::WriteFile {
            bytes,
            expected_md5,
            ..
        } => {
            let b = bytes.clone().unwrap();
            assert_eq!(b, b"changed by hand".to_vec());
            match check_written(expected_md5, &b) {
                ChecksumOutcome::Mismatch { expected, actual } => {
                    assert_eq!(expected, "00000000000000000000000000000000");
                    assert_eq!(actual.len(), 32);
                }
                _ => panic!("expected a mismatch"),
            }
        }
        _ => panic!("expected a file write"),
    }
}

#[test]
fn checksum_not_provided() {
    match check_written(&None, b"Hello, World!") {
        ChecksumOutcome::NotProvided { actual } => {
            assert_eq!(actual, "65a8e27d8879283831b664bd8b7f0ad4")
        }
        _ => panic!("expected no checksum"),
    }
}

#[test]
fn dependency_is_merged_before_own_children() {
    let repo = Repo::Directory {
        name: ".".to_string(),
        children: vec![Repo::File {
            name: "own.txt".to_string(),
            content: "mine".to_string(),
            original_size: Some(4),
            original_md5: None,
            is_compressed: None,
            is_optional: None,
        }],
        dependencies: Some(vec!["base".to_string()]),
        description: Some("with a base".to_string()),
    };
    let steps = repo.to_folder();
    assert_eq!(steps.len(), 3);
    match &steps[0] {
        Step::Merge { reference, at } => {
            assert_eq!(reference, "base");
            assert!(at.is_empty());
        }
        _ => panic!("expected a merge"),
    }
    match &steps[1] {
        Step::MakeDir { path } => assert_eq!(path, &vec![".".to_string()]),
        _ => panic!("expected a directory"),
    }
    match &steps[2] {
        Step::WriteFile { path, .. } => {
            assert_eq!(path, &vec![".".to_string(), "own.txt".to_string()])
        }
        _ => panic!("expected a file write"),
    }
}

#[test]
fn empty_node_does_nothing() {
    let repo = Repo::Empty {};
    assert!(repo.to_folder().is_empty());
    assert!(repo.validated(&vec![]).is_empty());
}

#[test]
fn undecodable_compressed_content() {
    assert!(decode_content(&"~~~~~".to_string(), Some(true)).is_none());
    assert!(decode_content(&"not base85 at all".to_string(), Some(true)).is_none());
    assert!(decode_content(&"0000000000".to_string(), Some(true)).is_none());
    assert_eq!(
        decode_content(&"~~~~~".to_string(), None).unwrap(),
        b"~~~~~".to_vec()
    );
}

#[test]
fn lossy_text_for_invalid_utf8() {
    let raw = vec![b'a', 0xff, b'b'];
    let r = Repo::encode_file(&"odd.txt".to_string(), &raw, false);
    let (content, packed, _, _) = content_of(&r);
    assert_eq!(packed, Some(false));
    assert_eq!(content, "a\u{fffd}b");
}

#[test]
fn tree_drawing() {
    let repo = Repo::Directory {
        name: ".".to_string(),
        children: vec![
            Repo::File {
                name: "a.txt".to_string(),
                content: String::new(),
                original_size: None,
                original_md5: None,
                is_compressed: None,
                is_optional: None,
            },
            Repo::Empty {},
            Repo::Directory {
                name: "sub".to_string(),
                children: vec![],
                dependencies: None,
                description: None,
            },
        ],
        dependencies: None,
        description: None,
    };
    assert_eq!(
        repo.display_tree("", true),
        vec![
            "└── \x1b[34m.\x1b[0m".to_string(),
            "    ├── a.txt".to_string(),
            "    └── \x1b[34msub\x1b[0m".to_string(),
        ]
    );
}

#[test]
fn compressed_tree_encodes_and_rebuilds() {
    let tree = dir(
        "src",
        vec![
            file("photo.png", &[137, 80, 78, 71, 0, 255]),
            dir("docs", vec![file("readme.md", b"# title\n")]),
        ],
    );
    let first = Repo::from_folder(&tree, true, 0).unwrap();
    let steps = first.to_folder();
    assert_eq!(steps.len(), 4);
    let expect: [(Vec<String>, &[u8]); 2] = [
        (vec![".".to_string(), "photo.png".to_string()], &[137, 80, 78, 71, 0, 255]),
        (
            vec![".".to_string(), "docs".to_string(), "readme.md".to_string()],
            b"# title\n",
        ),
    ];
    let writes: Vec<(Vec<String>, Vec<u8>)> = steps
        .iter()
        .filter_map(|s| match s {
            Step::WriteFile { path, bytes, .. } => Some((path.clone(), bytes.clone().unwrap())),
            _ => None,
        })
        .collect();
    assert_eq!(writes.len(), 2);
    for (k, (path, raw)) in expect.iter().enumerate() {
        assert_eq!(&writes[k].0, path);
        assert_eq!(&writes[k].1[..], *raw);
    }
    let second = Repo::from_folder(&tree, true, 0).unwrap();
    let (a, b) = match (&first, &second) {
        (Repo::Directory { children: a, .. }, Repo::Directory { children: b, .. }) => {
            (content_of(&a[0]), content_of(&b[0]))
        }
        _ => panic!("expected directories"),
    };
    assert_eq!(a.0, b.0);
    assert_eq!(a.1, Some(true));
}
