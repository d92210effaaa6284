use ntlib::repos::{get_repos, GetReposError, GroupRepos, HorizontalReview, MainAndOtherRepos};

fn team(main: &str, others: Option<Vec<&str>>) -> MainAndOtherRepos {
    MainAndOtherRepos {
        main: String::from(main),
        others: others.map(|o| o.into_iter().map(String::from).collect()),
    }
}

fn apa() -> GroupRepos {
    GroupRepos {
        group: team("w3c/apa", Some(vec!["w3c/a11y-review"])),
        horizontal_review: Some(HorizontalReview {
            comments: Some(String::from("w3c/a11y-review")),
            designs: None,
            specs: Some(String::from("w3c/a11y-request")),
        }),
        task_forces: Some(vec![
            (String::from("rqtf"), team("w3c/rqtf", None)),
            (String::from("maturity"), team("w3c/maturity-model", Some(vec!["w3c/mm2"]))),
        ]),
    }
}

#[test]
fn group_repos_all_or_main() {
    assert_eq!(
        get_repos(&apa(), false, true, &None),
        Ok(vec![String::from("w3c/apa"), String::from("w3c/a11y-review")])
    );
    assert_eq!(
        get_repos(&apa(), true, true, &None),
        Ok(vec![String::from("w3c/apa")])
    );
}

#[test]
fn all_task_forces_in_order() {
    assert_eq!(
        get_repos(&apa(), false, false, &Some(vec![])),
        Ok(vec![
            String::from("w3c/rqtf"),
            String::from("w3c/maturity-model"),
            String::from("w3c/mm2")
        ])
    );
}

#[test]
fn named_task_force() {
    assert_eq!(
        get_repos(&apa(), true, true, &Some(vec![String::from("maturity")])),
        Ok(vec![String::from("w3c/apa"), String::from("w3c/maturity-model")])
    );
}

#[test]
fn unknown_task_force() {
    assert_eq!(
        get_repos(&apa(), false, false, &Some(vec![String::from("rqtf"), String::from("nope")])),
        Err(GetReposError::UnknownTaskForce {
            task_force: String::from("nope"),
            group_task_forces: vec![String::from("rqtf"), String::from("maturity")],
        })
    );
}

#[test]
fn nothing_selected_or_no_task_forces() {
    assert_eq!(get_repos(&apa(), false, false, &None), Err(GetReposError::NoneSelected));
    let mut g = apa();
    g.task_forces = None;
    assert_eq!(
        get_repos(&g, false, true, &Some(vec![])),
        Err(GetReposError::NoTaskForces)
    );
}

#[test]
fn horizontal_review_repos() {
    let g = apa();
    assert_eq!(g.hr_comments().map(|s| s.as_str()), Some("w3c/a11y-review"));
    assert_eq!(g.hr_designs(), None);
    assert_eq!(g.hr_specs().map(|s| s.as_str()), Some("w3c/a11y-request"));
}
