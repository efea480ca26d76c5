use mygit::path::StoragePath;
use mygit::rev_spec::{
    git_rev_spec_value_into_path_buf, loose_object_path, parse_git_rev_spec, take_rev_spec,
    GitRevSpecParsed, GitRevSpecType, RevSpecError,
};
use std::path::PathBuf;

/// The file name that an address stands for.
fn path_buf_of(path: &StoragePath) -> PathBuf {
    let mut buf = PathBuf::new();
    for component in path.components.iter() {
        buf.push(component);
    }
    buf
}

#[test]
fn test_to_path_buffer_head_ok() {
    let git_rev_spec_parsed = GitRevSpecParsed {
        value: "HEAD".to_string(),
        modifier: None,
    };
    let git_root = StoragePath::new().join(".git");
    let resolved_path = PathBuf::new().join(".git").join("HEAD");
    assert_eq!(
        path_buf_of(
            &git_rev_spec_parsed
                .to_path_buf(GitRevSpecType::Head, &git_root)
                .unwrap()
        ),
        resolved_path
    )
}

#[test]
fn test_to_path_buffer_commit_ok() {
    let git_rev_spec_parsed = GitRevSpecParsed {
        value: "af648df27488d558e794eb1e25304a90930d9d38".to_string(),
        modifier: None,
    };
    let git_root = StoragePath::new().join(".git");
    let resolved_path = PathBuf::new()
        .join(".git")
        .join("objects")
        .join("af")
        .join("648df27488d558e794eb1e25304a90930d9d38");
    assert_eq!(
        path_buf_of(
            &git_rev_spec_parsed
                .to_path_buf(GitRevSpecType::CommitSha, &git_root)
                .unwrap()
        ),
        resolved_path
    )
}

#[test]
fn test_to_path_buffer_commit_ko_not_correct_length() {
    let git_rev_spec_parsed = GitRevSpecParsed {
        value: "af648df27488d558e794eb".to_string(),
        modifier: None,
    };
    let git_root = StoragePath::new().join(".git");

    let error = git_rev_spec_parsed
        .to_path_buf(GitRevSpecType::CommitSha, &git_root)
        .unwrap_err();

    assert_eq!(format!("{}", error.message()), "Not a commitsha");
}

#[test]
fn test_to_path_buffer_branch_no_slash() {
    let git_rev_spec_parsed = GitRevSpecParsed {
        value: "master".to_string(),
        modifier: None,
    };
    let git_root = StoragePath::new().join(".git");
    let resolved_path = PathBuf::new()
        .join(".git")
        .join("refs")
        .join("heads")
        .join("master");
    assert_eq!(
        path_buf_of(
            &git_rev_spec_parsed
                .to_path_buf(GitRevSpecType::BranchName, &git_root)
                .unwrap()
        ),
        resolved_path
    )
}

#[test]
fn test_to_path_buffer_branch_multiple_slashes() {
    let git_rev_spec_parsed = GitRevSpecParsed {
        value: "feat/foo/bar".to_string(),
        modifier: None,
    };
    let git_root = StoragePath::new().join(".git");
    let resolved_path = PathBuf::new()
        .join(".git")
        .join("refs")
        .join("heads")
        .join("feat")
        .join("foo")
        .join("bar");
    assert_eq!(
        path_buf_of(
            &git_rev_spec_parsed
                .to_path_buf(GitRevSpecType::BranchName, &git_root)
                .unwrap()
        ),
        resolved_path
    )
}

#[test]
fn test_to_path_buffer_tag_no_slash() {
    let git_rev_spec_parsed = GitRevSpecParsed {
        value: "v1".to_string(),
        modifier: None,
    };
    let git_root = StoragePath::new().join(".git");
    let resolved_path = PathBuf::new()
        .join(".git")
        .join("refs")
        .join("tags")
        .join("v1");
    assert_eq!(
        path_buf_of(
            &git_rev_spec_parsed
                .to_path_buf(GitRevSpecType::TagName, &git_root)
                .unwrap()
        ),
        resolved_path
    )
}

#[test]
fn test_to_path_buffer_tag_multiple_slashes() {
    let git_rev_spec_parsed = GitRevSpecParsed {
        value: "v1/foo/bar".to_string(),
        modifier: None,
    };
    let git_root = StoragePath::new().join(".git");
    let resolved_path = PathBuf::new()
        .join(".git")
        .join("refs")
        .join("tags")
        .join("v1")
        .join("foo")
        .join("bar");
    assert_eq!(
        path_buf_of(
            &git_rev_spec_parsed
                .to_path_buf(GitRevSpecType::TagName, &git_root)
                .unwrap()
        ),
        resolved_path
    )
}

#[test]
fn test_take_rev_spec_carets() {
    assert_eq!(take_rev_spec("feat/master^^"), ("^^", "feat/master"));
}

#[test]
fn test_take_rev_spec_carets_and_tilde() {
    assert_eq!(
        take_rev_spec("feat/master^^~^~"),
        ("^^~^~", "feat/master")
    );
}

#[test]
fn test_take_rev_spec_carets_tilde_with_number() {
    assert_eq!(
        take_rev_spec("feat/master^~3^^"),
        ("^~3^^", "feat/master")
    );
}

#[test]
fn test_take_rev_spec_at() {
    assert_eq!(take_rev_spec("feat/master@{3}"), ("@{3}", "feat/master"));
}

#[test]
fn test_parse_parse_git_rev_spec() {
    assert_eq!(
        parse_git_rev_spec("HEAD").unwrap(),
        GitRevSpecParsed {
            value: "HEAD".to_string(),
            modifier: None
        }
    );
}

#[test]
fn test_parse_parse_git_rev_spec_caret() {
    assert_eq!(
        parse_git_rev_spec("HEAD^").unwrap(),
        GitRevSpecParsed {
            value: "HEAD".to_string(),
            modifier: Some("^".to_string())
        }
    );
}

#[test]
fn test_parse_parse_git_rev_spec_double_caret() {
    assert_eq!(
        parse_git_rev_spec("HEAD^^").unwrap(),
        GitRevSpecParsed {
            value: "HEAD".to_string(),
            modifier: Some("^^".to_string())
        }
    );
}

#[test]
fn test_parse_parse_git_rev_spec_tilde() {
    assert_eq!(
        parse_git_rev_spec("HEAD~").unwrap(),
        GitRevSpecParsed {
            value: "HEAD".to_string(),
            modifier: Some("~".to_string())
        }
    );
}

#[test]
fn test_parse_parse_git_rev_spec_double_tilde() {
    assert_eq!(
        parse_git_rev_spec("HEAD~~").unwrap(),
        GitRevSpecParsed {
            value: "HEAD".to_string(),
            modifier: Some("~~".to_string())
        }
    );
}

#[test]
fn test_parse_parse_git_rev_spec_at() {
    assert_eq!(
        parse_git_rev_spec("HEAD@{5}").unwrap(),
        GitRevSpecParsed {
            value: "HEAD".to_string(),
            modifier: Some("@{5}".to_string())
        }
    );
}

#[test]
fn test_parse_parse_git_rev_spec_combine_modifiers_1() {
    assert_eq!(
        parse_git_rev_spec("HEAD@{5}~2^").unwrap(),
        GitRevSpecParsed {
            value: "HEAD".to_string(),
            modifier: Some("@{5}~2^".to_string())
        }
    );
}

#[test]
fn test_parse_parse_git_rev_spec_combine_modifiers_2() {
    assert_eq!(
        parse_git_rev_spec("HEAD^~2@{5}").unwrap(),
        GitRevSpecParsed {
            value: "HEAD".to_string(),
            modifier: Some("^~2@{5}".to_string())
        }
    );
}

#[test]
fn parse_tag_with_tilde_count() {
    assert_eq!(
        parse_git_rev_spec("v0.1.0~3").unwrap(),
        GitRevSpecParsed {
            value: "v0.1.0".to_string(),
            modifier: Some("~3".to_string())
        }
    );
}

#[test]
fn parse_plain_names() {
    assert_eq!(
        parse_git_rev_spec("feat/foo").unwrap(),
        GitRevSpecParsed {
            value: "feat/foo".to_string(),
            modifier: None
        }
    );
    assert_eq!(
        parse_git_rev_spec("développement~1").unwrap(),
        GitRevSpecParsed {
            value: "développement".to_string(),
            modifier: Some("~1".to_string())
        }
    );
}

#[test]
fn parse_without_base_is_refused() {
    assert_eq!(parse_git_rev_spec("^abc"), Err(RevSpecError::EmptyBase));
    assert_eq!(parse_git_rev_spec("~"), Err(RevSpecError::EmptyBase));
    assert_eq!(parse_git_rev_spec("@{1}"), Err(RevSpecError::EmptyBase));
    assert_eq!(parse_git_rev_spec(""), Err(RevSpecError::EmptyBase));
}

#[test]
fn take_rev_spec_at_the_edges() {
    assert_eq!(take_rev_spec(""), ("", ""));
    assert_eq!(take_rev_spec("^abc"), ("^abc", ""));
    assert_eq!(take_rev_spec("master"), ("", "master"));
    assert_eq!(take_rev_spec("é~è"), ("~è", "é"));
}

#[test]
fn to_path_buffer_head_refuses_other_names() {
    let git_root = StoragePath::new().join(".git");
    for name in ["head", "HEAD ", "HEADS", "master", ""] {
        let parsed = GitRevSpecParsed {
            value: name.to_string(),
            modifier: None,
        };
        assert_eq!(
            parsed.to_path_buf(GitRevSpecType::Head, &git_root),
            Err(RevSpecError::NotHead)
        );
    }
}

#[test]
fn to_path_buffer_ignores_the_modifier() {
    let git_root = StoragePath::new().join(".git");
    let parsed = GitRevSpecParsed {
        value: "HEAD".to_string(),
        modifier: Some("~2".to_string()),
    };
    assert_eq!(
        parsed.to_path_buf(GitRevSpecType::Head, &git_root),
        Ok(StoragePath::new().join(".git").join("HEAD"))
    );
}

#[test]
fn forty_character_name_is_also_a_branch_candidate() {
    let git_root = StoragePath::new().join(".git");
    let parsed = GitRevSpecParsed {
        value: "af648df27488d558e794eb1e25304a90930d9d38".to_string(),
        modifier: None,
    };
    assert_eq!(
        parsed.to_path_buf(GitRevSpecType::BranchName, &git_root),
        Ok(StoragePath::new()
            .join(".git")
            .join("refs")
            .join("heads")
            .join("af648df27488d558e794eb1e25304a90930d9d38"))
    );
}

#[test]
fn loose_object_path_splits_two_and_thirty_eight() {
    let git_root = StoragePath::new().join(".git");
    let path = loose_object_path(&git_root, "af648df27488d558e794eb1e25304a90930d9d38").unwrap();
    assert_eq!(
        path.components,
        vec![
            ".git".to_string(),
            "objects".to_string(),
            "af".to_string(),
            "648df27488d558e794eb1e25304a90930d9d38".to_string()
        ]
    );
    assert_eq!(path.components[3].len(), 38);
}

#[test]
fn loose_object_path_refuses_other_lengths() {
    let git_root = StoragePath::new().join(".git");
    assert_eq!(
        loose_object_path(&git_root, "af648df27488d558e794eb1e25304a90930d9d3"),
        Err(RevSpecError::InvalidHashLength)
    );
    assert_eq!(
        loose_object_path(&git_root, "af648df27488d558e794eb1e25304a90930d9d380"),
        Err(RevSpecError::InvalidHashLength)
    );
    assert_eq!(
        loose_object_path(&git_root, ""),
        Err(RevSpecError::InvalidHashLength)
    );
}

#[test]
fn into_path_buf_keeps_empty_segments() {
    let root = StoragePath::new().join("refs");
    assert_eq!(
        git_rev_spec_value_into_path_buf("a//b/", root.clone()).components,
        vec!["refs", "a", "", "b", ""]
    );
    assert_eq!(
        git_rev_spec_value_into_path_buf("", root.clone()).components,
        vec!["refs", ""]
    );
    assert_eq!(
        git_rev_spec_value_into_path_buf("été/à", root).components,
        vec!["refs", "été", "à"]
    );
}

#[test]
fn storage_path_push_and_join() {
    let mut path = StoragePath::new();
    assert!(path.components.is_empty());
    path.push("a");
    let longer = path.join("b");
    assert_eq!(path.components, vec!["a"]);
    assert_eq!(longer.components, vec!["a", "b"]);
    assert_eq!(longer.clone(), longer);
}

#[test]
fn rev_spec_error_messages() {
    assert_eq!(RevSpecError::NotHead.message(), "Not a HEAD");
    assert_eq!(RevSpecError::InvalidHashLength.message(), "Not a commitsha");
    assert_eq!(RevSpecError::EmptyBase.message(), "Empty revision base");
}
