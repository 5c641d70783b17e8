use kberry::{
    int_text, join_images, parse_choice, pod_row, provider_for_choice, workload_row, PodRow, PodSummary,
    Provider, WorkloadRow, WorkloadSummary,
};

fn s(v: &str) -> String {
    v.to_string()
}

#[test]
fn pod_row_uses_unknown_for_missing_fields() {
    let r = pod_row(PodSummary { name: Some(s("web-1")), phase: None, node: None });
    assert_eq!(r, PodRow { name: s("web-1"), status: s("Unknown"), node: s("Unknown") });
    let r = pod_row(PodSummary { name: None, phase: Some(s("Running")), node: Some(s("n1")) });
    assert_eq!(r, PodRow { name: s("Unknown"), status: s("Running"), node: s("n1") });
}

#[test]
fn workload_row_joins_images() {
    let r = workload_row(WorkloadSummary {
        name: Some(s("web")),
        replicas: Some(3),
        images: Some(vec![Some(s("nginx:1.25")), None, Some(s("envoy"))]),
    });
    assert_eq!(
        r,
        WorkloadRow { name: s("web"), images: s("nginx:1.25, Unknown, envoy"), replicas: s("3") }
    );
}

#[test]
fn workload_row_placeholders() {
    let r = workload_row(WorkloadSummary { name: None, replicas: None, images: None });
    assert_eq!(r, WorkloadRow { name: s("Unknown"), images: s("Unknown"), replicas: s("N/A") });
    let r = workload_row(WorkloadSummary { name: Some(s("db")), replicas: Some(-12), images: Some(vec![]) });
    assert_eq!(r, WorkloadRow { name: s("db"), images: s(""), replicas: s("-12") });
}

#[test]
fn join_images_single() {
    assert_eq!(join_images(&vec![None]), "Unknown");
}

#[test]
fn menu_choices() {
    assert_eq!(parse_choice(" 2\n"), Some(Provider::Eks));
    assert_eq!(parse_choice("1"), Some(Provider::Gke));
    assert_eq!(parse_choice("3\r\n"), Some(Provider::Aks));
    assert_eq!(parse_choice(" 3 \n"), Some(Provider::Aks));
    assert_eq!(parse_choice("\u{3000}4\u{a0}"), Some(Provider::Local));
    assert_eq!(parse_choice("4"), Some(Provider::Local));
    assert_eq!(parse_choice("5"), None);
    assert_eq!(parse_choice("12"), None);
    assert_eq!(provider_for_choice(" 1"), None);
}

#[test]
fn provider_commands() {
    let c = Provider::Gke.commands();
    assert_eq!(c.len(), 2);
    assert_eq!(c[0].program, "gcloud");
    assert_eq!(c[0].args, vec![s("auth"), s("login")]);
    assert_eq!(
        c[1].args,
        vec![s("container"), s("clusters"), s("get-credentials"), s("CLUSTER_NAME"), s("--region"), s("REGION")]
    );
    let c = Provider::Local.commands();
    assert_eq!(c.len(), 1);
    assert_eq!(c[0].program, "kubectl");
    assert_eq!(c[0].args, vec![s("config"), s("view")]);
    let c = Provider::Aks.commands();
    assert_eq!(c[0].program, "az");
    assert_eq!(c[1].args[2], "--resource-group");
    let c = Provider::Eks.commands();
    assert_eq!(c[0].args, vec![s("configure")]);
    assert_eq!(c[1].args[1], "update-kubeconfig");
    assert_eq!(Provider::Local.title(), "Local Kubernetes");
}

#[test]
fn int_text_is_decimal() {
    assert_eq!(int_text(0), "0");
    assert_eq!(int_text(7), "7");
    assert_eq!(int_text(10), "10");
    assert_eq!(int_text(-305), "-305");
    assert_eq!(int_text(i32::MAX), "2147483647");
    assert_eq!(int_text(i32::MIN), "-2147483648");
}

#[test]
fn workload_without_pod_spec_shows_unknown_images() {
    let r = workload_row(WorkloadSummary { name: Some(s("ss")), replicas: Some(0), images: None });
    assert_eq!(r, WorkloadRow { name: s("ss"), images: s("Unknown"), replicas: s("0") });
}
