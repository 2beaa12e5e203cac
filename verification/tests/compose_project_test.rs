use rustydocker::compose::{
    compose_file_to_project, effective_project, is_compose_file_name, ComposeFile, DependsOn, ServiceDef,
};

fn def(image: &str, depends_on: Option<DependsOn>) -> ServiceDef {
    ServiceDef { image: Some(image.to_string()), depends_on, profiles: vec![], has_build: false }
}

fn names(list: &[&str]) -> Vec<String> {
    list.iter().map(|s| s.to_string()).collect()
}

#[test]
fn project_from_file_sorts_services_and_reads_dependencies() {
    let file = ComposeFile {
        name: None,
        services: Some(vec![
            ("web".to_string(), def("nginx", Some(DependsOn::List(names(&["api"]))))),
            ("api".to_string(), def("node:18", Some(DependsOn::List(names(&["db"]))))),
            ("db".to_string(), def("postgres:15", None)),
        ]),
    };
    let project = compose_file_to_project(file, "myproject");
    assert_eq!(project.name, "myproject");
    assert_eq!(project.path, "");
    let order: Vec<&str> = project.services.iter().map(|s| s.name.as_str()).collect();
    assert_eq!(order, vec!["api", "db", "web"]);
    assert_eq!(project.services[0].depends_on, vec!["db"]);
    assert_eq!(project.services[2].depends_on, vec!["api"]);
    assert!(project.services[1].depends_on.is_empty());
    assert_eq!(project.services[1].image.as_deref(), Some("postgres:15"));
}

#[test]
fn project_from_file_reads_mapped_dependencies() {
    let file = ComposeFile {
        name: None,
        services: Some(vec![("web".to_string(), def("nginx", Some(DependsOn::Mapping(names(&["api"])))))]),
    };
    let project = compose_file_to_project(file, "test");
    assert_eq!(project.services[0].depends_on, vec!["api"]);
}

#[test]
fn project_from_file_without_services_is_empty() {
    let project = compose_file_to_project(ComposeFile { name: None, services: None }, "empty");
    assert_eq!(project.services.len(), 0);
    let project = compose_file_to_project(ComposeFile { name: None, services: Some(vec![]) }, "empty");
    assert_eq!(project.services.len(), 0);
}

#[test]
fn project_name_in_file_wins() {
    let file = ComposeFile { name: Some("named".to_string()), services: None };
    assert_eq!(compose_file_to_project(file, "dir").name, "named");
    assert_eq!(effective_project(ComposeFile { name: None, services: None }).name, "compose");
}

#[test]
fn build_and_profiles_are_kept() {
    let file = ComposeFile {
        name: None,
        services: Some(vec![(
            "app".to_string(),
            ServiceDef { image: None, depends_on: None, profiles: names(&["debug"]), has_build: true },
        )]),
    };
    let project = compose_file_to_project(file, "p");
    assert!(project.services[0].has_build);
    assert_eq!(project.services[0].profiles, vec!["debug"]);
    assert_eq!(project.services[0].image, None);
}

#[test]
fn compose_file_names() {
    assert!(is_compose_file_name("docker-compose.yml"));
    assert!(is_compose_file_name("docker-compose.yaml"));
    assert!(is_compose_file_name("compose.yml"));
    assert!(is_compose_file_name("compose.yaml"));
    assert!(!is_compose_file_name("compose.json"));
    assert!(!is_compose_file_name(""));
}
