use mygit::path::StoragePath;
use mygit::resolve::{
    resolve_git_rev_spec, resolve_git_rev_spec_parsed, resolve_head, resolve_lookups,
    GitRevSpecResolved,
};
use mygit::rev_spec::{GitRevSpecParsed, RevSpecError};
use std::cell::RefCell;
use std::path::PathBuf;

const GIT_HEAD: &str = "ref: refs/heads/master";
const GIT_REFS_HEADS_MASTER: &str = "af648df27488d558e794eb1e25304a90930d9d38";
const GIT_REFS_HEADS_FEAT_FOO: &str = "eea961ba163d275c90fd6ba57d70754809b428a1";
const GIT_REFS_TAGS_V0_1_0: &str = "b82608c0bb54a84ae7b3d38112ccf1cb50aebe8d";
const GIT_REFS_HEADS_AMBIGUOUS: &str = "4269cb47c9e9afc08092a4344c7ec7c9545c51ee";
const GIT_REFS_TAGS_AMBIGUOUS: &str = "ef916326703d7dcd9cab6b9ba6bb4793912508af";
const MOCK_COMMIT_CONTENT: &str = "mock commit content";

fn path_buf_of(path: &StoragePath) -> PathBuf {
    let mut buf = PathBuf::new();
    for component in path.components.iter() {
        buf.push(component);
    }
    buf
}

fn mock_read_as_string(path: &StoragePath) -> Result<String, anyhow::Error> {
    match path_buf_of(path).to_str() {
        Some(".git/HEAD") => Ok(GIT_HEAD.to_string()),
        Some(".git/refs/heads/master") => Ok(GIT_REFS_HEADS_MASTER.to_string()),
        Some(".git/refs/heads/feat/foo") => Ok(GIT_REFS_HEADS_FEAT_FOO.to_string()),
        Some(".git/refs/tags/v0.1.0") => Ok(GIT_REFS_TAGS_V0_1_0.to_string()),
        Some(".git/refs/heads/ambiguous") => Ok(GIT_REFS_HEADS_AMBIGUOUS.to_string()),
        Some(".git/refs/tags/ambiguous") => Ok(GIT_REFS_TAGS_AMBIGUOUS.to_string()),
        Some(".git/objects/af/648df27488d558e794eb1e25304a90930d9d38") => {
            Ok(MOCK_COMMIT_CONTENT.to_string())
        }
        Some(".git/objects/ee/a961ba163d275c90fd6ba57d70754809b428a1") => {
            Ok(MOCK_COMMIT_CONTENT.to_string())
        }
        Some(".git/objects/b8/2608c0bb54a84ae7b3d38112ccf1cb50aebe8d") => {
            Ok(MOCK_COMMIT_CONTENT.to_string())
        }
        Some(_) | None => Err(anyhow::Error::msg(format!("File not found - {:?}", path))),
    }
}

fn mock_file_exits(path: &StoragePath) -> bool {
    match mock_read_as_string(path) {
        Ok(_) => true,
        Err(_) => false,
    }
}

fn parsed(value: &str) -> GitRevSpecParsed {
    GitRevSpecParsed {
        value: value.to_string(),
        modifier: None,
    }
}

#[test]
fn test_resolve_git_rev_spec_parsed_commit_sha() {
    let git_root = StoragePath::new().join(".git");
    assert_eq!(
        resolve_git_rev_spec_parsed(
            GitRevSpecParsed {
                value: GIT_REFS_HEADS_MASTER.to_string(),
                modifier: None,
            },
            &git_root,
            mock_read_as_string,
            mock_file_exits
        ),
        GitRevSpecResolved::Match(GIT_REFS_HEADS_MASTER.to_string())
    )
}

#[test]
fn test_resolve_git_rev_spec_parsed_head() {
    let git_root = StoragePath::new().join(".git");
    assert_eq!(
        resolve_git_rev_spec_parsed(
            GitRevSpecParsed {
                value: "HEAD".to_string(),
                modifier: None,
            },
            &git_root,
            mock_read_as_string,
            mock_file_exits
        ),
        GitRevSpecResolved::Match(GIT_HEAD.to_string())
    )
}

#[test]
fn test_resolve_git_rev_spec_parsed_feat_foo() {
    let git_root = StoragePath::new().join(".git");
    assert_eq!(
        resolve_git_rev_spec_parsed(
            GitRevSpecParsed {
                value: "feat/foo".to_string(),
                modifier: None,
            },
            &git_root,
            mock_read_as_string,
            mock_file_exits
        ),
        GitRevSpecResolved::Match(GIT_REFS_HEADS_FEAT_FOO.to_string())
    )
}

#[test]
fn test_resolve_git_rev_spec_parsed_tag_v_010() {
    let git_root = StoragePath::new().join(".git");
    assert_eq!(
        resolve_git_rev_spec_parsed(
            GitRevSpecParsed {
                value: "v0.1.0".to_string(),
                modifier: None,
            },
            &git_root,
            mock_read_as_string,
            mock_file_exits
        ),
        GitRevSpecResolved::Match(GIT_REFS_TAGS_V0_1_0.to_string())
    )
}

#[test]
fn resolve_head_and_master_end_to_end() {
    let git_root = StoragePath::new().join(".git");
    assert_eq!(
        resolve_git_rev_spec(
            "HEAD".to_string(),
            &git_root,
            mock_read_as_string,
            mock_file_exits
        ),
        Ok(GitRevSpecResolved::Match(
            "ref: refs/heads/master".to_string()
        ))
    );
    assert_eq!(
        resolve_git_rev_spec(
            "master".to_string(),
            &git_root,
            mock_read_as_string,
            mock_file_exits
        ),
        Ok(GitRevSpecResolved::Match(
            "af648df27488d558e794eb1e25304a90930d9d38".to_string()
        ))
    );
}

#[test]
fn resolve_ambiguous_name_surfaces_the_tag() {
    let git_root = StoragePath::new().join(".git");
    assert_eq!(
        resolve_git_rev_spec_parsed(
            parsed("ambiguous"),
            &git_root,
            mock_read_as_string,
            mock_file_exits
        ),
        GitRevSpecResolved::Ambiguous(GIT_REFS_TAGS_AMBIGUOUS.to_string())
    );
}

#[test]
fn resolve_unknown_name_is_not_found() {
    let git_root = StoragePath::new().join(".git");
    assert_eq!(
        resolve_git_rev_spec_parsed(
            parsed("nonexistent"),
            &git_root,
            mock_read_as_string,
            mock_file_exits
        ),
        GitRevSpecResolved::NotFound
    );
}

#[test]
fn resolve_ignores_the_modifier() {
    let git_root = StoragePath::new().join(".git");
    assert_eq!(
        resolve_git_rev_spec(
            "v0.1.0~3".to_string(),
            &git_root,
            mock_read_as_string,
            mock_file_exits
        ),
        Ok(GitRevSpecResolved::Match(GIT_REFS_TAGS_V0_1_0.to_string()))
    );
}

#[test]
fn resolve_without_base_looks_nothing_up() {
    let git_root = StoragePath::new().join(".git");
    let asked = RefCell::new(0);
    let read = |path: &StoragePath| {
        *asked.borrow_mut() += 1;
        mock_read_as_string(path)
    };
    let exists = |path: &StoragePath| {
        *asked.borrow_mut() += 1;
        mock_file_exits(path)
    };
    assert_eq!(
        resolve_git_rev_spec("^abc".to_string(), &git_root, read, exists),
        Err(RevSpecError::EmptyBase)
    );
    assert_eq!(*asked.borrow(), 0);
}

#[test]
fn resolve_asks_in_order_of_precedence() {
    let git_root = StoragePath::new().join(".git");
    let asked: RefCell<Vec<String>> = RefCell::new(Vec::new());
    let read = |path: &StoragePath| {
        asked.borrow_mut().push(path.components.join("/"));
        mock_read_as_string(path)
    };
    let exists = |path: &StoragePath| {
        asked.borrow_mut().push(path.components.join("/"));
        mock_file_exits(path)
    };
    assert_eq!(
        resolve_git_rev_spec_parsed(parsed("HEAD"), &git_root, &read, &exists),
        GitRevSpecResolved::Match(GIT_HEAD.to_string())
    );
    assert_eq!(*asked.borrow(), vec![".git/HEAD"]);
    asked.borrow_mut().clear();

    assert_eq!(
        resolve_git_rev_spec_parsed(parsed(GIT_REFS_HEADS_MASTER), &git_root, &read, &exists),
        GitRevSpecResolved::Match(GIT_REFS_HEADS_MASTER.to_string())
    );
    assert_eq!(
        *asked.borrow(),
        vec![".git/objects/af/648df27488d558e794eb1e25304a90930d9d38"]
    );
    asked.borrow_mut().clear();

    assert_eq!(
        resolve_git_rev_spec_parsed(parsed("feat/foo"), &git_root, &read, &exists),
        GitRevSpecResolved::Match(GIT_REFS_HEADS_FEAT_FOO.to_string())
    );
    assert_eq!(
        *asked.borrow(),
        vec![".git/refs/heads/feat/foo", ".git/refs/tags/feat/foo"]
    );
}

#[test]
fn resolve_unreadable_head_falls_through() {
    let git_root = StoragePath::new().join("elsewhere");
    let read = |path: &StoragePath| -> Result<String, ()> {
        if path.components == ["elsewhere", "refs", "heads", "HEAD"] {
            Ok("a branch called HEAD".to_string())
        } else {
            Err(())
        }
    };
    assert_eq!(
        resolve_git_rev_spec_parsed(parsed("HEAD"), &git_root, read, |_: &StoragePath| false),
        GitRevSpecResolved::Match("a branch called HEAD".to_string())
    );
}

#[test]
fn resolve_missing_object_falls_through_to_refs() {
    let git_root = StoragePath::new().join(".git");
    let name = "0123456789012345678901234567890123456789";
    let read = |path: &StoragePath| -> Result<String, ()> {
        if path.components == [".git", "refs", "tags", name] {
            Ok("tagged".to_string())
        } else {
            Err(())
        }
    };
    assert_eq!(
        resolve_git_rev_spec_parsed(parsed(name), &git_root, read, |_: &StoragePath| false),
        GitRevSpecResolved::Match("tagged".to_string())
    );
}

#[test]
fn resolve_lookups_by_precedence() {
    let some = |text: &str| Some(text.to_string());
    assert_eq!(
        resolve_lookups("HEAD".to_string(), some("h"), true, some("b"), some("t")),
        GitRevSpecResolved::Match("h".to_string())
    );
    assert_eq!(
        resolve_lookups("name".to_string(), None, true, some("b"), some("t")),
        GitRevSpecResolved::Match("name".to_string())
    );
    assert_eq!(
        resolve_lookups("name".to_string(), None, false, some("b"), some("t")),
        GitRevSpecResolved::Ambiguous("t".to_string())
    );
    assert_eq!(
        resolve_lookups("name".to_string(), None, false, some("b"), None),
        GitRevSpecResolved::Match("b".to_string())
    );
    assert_eq!(
        resolve_lookups("name".to_string(), None, false, None, some("t")),
        GitRevSpecResolved::Match("t".to_string())
    );
    assert_eq!(
        resolve_lookups("name".to_string(), None, false, None, None),
        GitRevSpecResolved::NotFound
    );
}

#[test]
fn resolve_head_reads_the_work_tree_pointer() {
    let root = StoragePath::new().join("project");
    let read = |path: &StoragePath| -> Result<Vec<u8>, String> {
        if path.components == ["project", ".git", "HEAD"] {
            Ok(b"ref: refs/heads/master\n".to_vec())
        } else {
            Err("missing".to_string())
        }
    };
    assert_eq!(
        resolve_head(&root, read),
        Ok(b"ref: refs/heads/master\n".to_vec())
    );
    assert_eq!(
        resolve_head(&StoragePath::new(), read),
        Err("missing".to_string())
    );
}
