use vstd::prelude::*;

verus! {

/// The cluster providers that setup knows.
#[derive(Debug, Clone, Copy, PartialEq, Eq, Structural)]
pub enum Provider {
    Gke,
    Eks,
    Aks,
    Local,
}

/// An outside command: a program and its arguments.
#[derive(Debug, PartialEq, Eq)]
pub struct ProviderCommand {
    pub program: String,
    pub args: Vec<String>,
}

impl View for ProviderCommand {
    type V = (Seq<char>, Seq<Seq<char>>);

    open spec fn view(&self) -> (Seq<char>, Seq<Seq<char>>) {
        (self.program@, self.args@.map_values(|a: String| a@))
    }
}

/// Whether `c` has the Unicode `White_Space` property.
pub open spec fn is_white_space(c: char) -> bool {
    ('\u{9}' <= c && c <= '\u{d}') || c == ' ' || c == '\u{85}' || c == '\u{a0}' || c == '\u{1680}'
        || ('\u{2000}' <= c && c <= '\u{200a}') || c == '\u{2028}' || c == '\u{2029}' || c
        == '\u{202f}' || c == '\u{205f}' || c == '\u{3000}'
}

pub open spec fn trim_start(s: Seq<char>) -> Seq<char>
    decreases s.len(),
{
    if s.len() > 0 && is_white_space(s[0]) {
        trim_start(s.drop_first())
    } else {
        s
    }
}

pub open spec fn trim_end(s: Seq<char>) -> Seq<char>
    decreases s.len(),
{
    if s.len() > 0 && is_white_space(s.last()) {
        trim_end(s.drop_last())
    } else {
        s
    }
}

/// The text without its leading and trailing whitespace.
pub open spec fn trimmed(s: Seq<char>) -> Seq<char> {
    trim_end(trim_start(s))
}

/// Relies on `str::trim`: the text without leading and trailing characters
/// of the Unicode `White_Space` property.
#[verifier::external_body]
fn trim_input(s: &str) -> (r: &str)
    ensures
        r@ == trimmed(s@),
{
    s.trim()
}

/// The provider a menu choice names: `1` to `4`.
pub open spec fn provider_of(choice: Seq<char>) -> Option<Provider> {
    if choice.len() == 1 && choice[0] == '1' {
        Some(Provider::Gke)
    } else if choice.len() == 1 && choice[0] == '2' {
        Some(Provider::Eks)
    } else if choice.len() == 1 && choice[0] == '3' {
        Some(Provider::Aks)
    } else if choice.len() == 1 && choice[0] == '4' {
        Some(Provider::Local)
    } else {
        None
    }
}

/// The provider of an already trimmed menu choice, or nothing for any other text.
pub fn provider_for_choice(choice: &str) -> (r: Option<Provider>)
    ensures
        r == provider_of(choice@),
{
    if choice.unicode_len() != 1 {
        return None;
    }
    let c = choice.get_char(0);
    if c == '1' {
        Some(Provider::Gke)
    } else if c == '2' {
        Some(Provider::Eks)
    } else if c == '3' {
        Some(Provider::Aks)
    } else if c == '4' {
        Some(Provider::Local)
    } else {
        None
    }
}

/// The provider chosen by a line of menu input, surrounding whitespace ignored.
pub fn parse_choice(input: &str) -> (r: Option<Provider>)
    ensures
        r == provider_of(trimmed(input@)),
{
    provider_for_choice(trim_input(input))
}

/// The commands each provider runs, in order.
pub open spec fn commands_of(p: Provider) -> Seq<(Seq<char>, Seq<Seq<char>>)> {
    match p {
        Provider::Gke => seq![
            ("gcloud"@, seq!["auth"@, "login"@]),
            (
                "gcloud"@,
                seq![
                    "container"@,
                    "clusters"@,
                    "get-credentials"@,
                    "CLUSTER_NAME"@,
                    "--region"@,
                    "REGION"@,
                ],
            ),
        ],
        Provider::Eks => seq![
            ("aws"@, seq!["configure"@]),
            (
                "aws"@,
                seq!["eks"@, "update-kubeconfig"@, "--name"@, "CLUSTER_NAME"@, "--region"@, "REGION"@],
            ),
        ],
        Provider::Aks => seq![
            ("az"@, seq!["login"@]),
            (
                "az"@,
                seq![
                    "aks"@,
                    "get-credentials"@,
                    "--resource-group"@,
                    "RESOURCE_GROUP"@,
                    "--name"@,
                    "CLUSTER_NAME"@,
                ],
            ),
        ],
        Provider::Local => seq![("kubectl"@, seq!["config"@, "view"@])],
    }
}

pub open spec fn title_of(p: Provider) -> Seq<char> {
    match p {
        Provider::Gke => "GKE"@,
        Provider::Eks => "EKS"@,
        Provider::Aks => "AKS"@,
        Provider::Local => "Local Kubernetes"@,
    }
}

fn command(program: &str, args: &[&str]) -> (r: ProviderCommand)
    ensures
        r@ == (program@, args@.map_values(|a: &str| a@)),
{
    let mut out: Vec<String> = Vec::new();
    let mut i: usize = 0;
    while i < args.len()
        invariant
            0 <= i <= args.len(),
            out@.len() == i,
            forall|j: int| 0 <= j < i ==> (#[trigger] out@[j])@ == args@[j]@,
        decreases args.len() - i,
    {
        let a = String::from_str(args[i]);
        out.push(a);
        i = i + 1;
    }
    proof {
        assert(out@.map_values(|a: String| a@) =~= args@.map_values(|a: &str| a@));
    }
    ProviderCommand { program: String::from_str(program), args: out }
}

impl Provider {
    /// The name shown while setting the provider up.
    pub fn title(&self) -> (r: &'static str)
        ensures
            r@ == title_of(*self),
    {
        match self {
            Provider::Gke => "GKE",
            Provider::Eks => "EKS",
            Provider::Aks => "AKS",
            Provider::Local => "Local Kubernetes",
        }
    }

    /// The commands that fetch the provider's cluster credentials, in the
    /// order they run.
    pub fn commands(&self) -> (r: Vec<ProviderCommand>)
        ensures
            r@.map_values(|c: ProviderCommand| c@) == commands_of(*self),
    {
        match self {
            Provider::Gke => {
                let mut r: Vec<ProviderCommand> = Vec::new();
                let login_args = ["auth", "login"];
                proof {
                    assert(login_args@.map_values(|a: &str| a@) =~= seq!["auth"@, "login"@]);
                }
                r.push(command("gcloud", &login_args));
                let fetch_args = [
                    "container",
                    "clusters",
                    "get-credentials",
                    "CLUSTER_NAME",
                    "--region",
                    "REGION",
                ];
                proof {
                    assert(fetch_args@.map_values(|a: &str| a@) =~= seq![
                        "container"@,
                        "clusters"@,
                        "get-credentials"@,
                        "CLUSTER_NAME"@,
                        "--region"@,
                        "REGION"@,
                    ]);
                }
                r.push(command("gcloud", &fetch_args));
                proof {
                    assert(r@.map_values(|c: ProviderCommand| c@) =~= commands_of(*self));
                }
                r
            },
            Provider::Eks => {
                let mut r: Vec<ProviderCommand> = Vec::new();
                let login_args = ["configure"];
                proof {
                    assert(login_args@.map_values(|a: &str| a@) =~= seq!["configure"@]);
                }
                r.push(command("aws", &login_args));
                let fetch_args = [
                    "eks",
                    "update-kubeconfig",
                    "--name",
                    "CLUSTER_NAME",
                    "--region",
                    "REGION",
                ];
                proof {
                    assert(fetch_args@.map_values(|a: &str| a@) =~= seq![
                        "eks"@,
                        "update-kubeconfig"@,
                        "--name"@,
                        "CLUSTER_NAME"@,
                        "--region"@,
                        "REGION"@,
                    ]);
                }
                r.push(command("aws", &fetch_args));
                proof {
                    assert(r@.map_values(|c: ProviderCommand| c@) =~= commands_of(*self));
                }
                r
            },
            Provider::Aks => {
                let mut r: Vec<ProviderCommand> = Vec::new();
                let login_args = ["login"];
                proof {
                    assert(login_args@.map_values(|a: &str| a@) =~= seq!["login"@]);
                }
                r.push(command("az", &login_args));
                let fetch_args = [
                    "aks",
                    "get-credentials",
                    "--resource-group",
                    "RESOURCE_GROUP",
                    "--name",
                    "CLUSTER_NAME",
                ];
                proof {
                    assert(fetch_args@.map_values(|a: &str| a@) =~= seq![
                        "aks"@,
                        "get-credentials"@,
                        "--resource-group"@,
                        "RESOURCE_GROUP"@,
                        "--name"@,
                        "CLUSTER_NAME"@,
                    ]);
                }
                r.push(command("az", &fetch_args));
                proof {
                    assert(r@.map_values(|c: ProviderCommand| c@) =~= commands_of(*self));
                }
                r
            },
            Provider::Local => {
                let mut r: Vec<ProviderCommand> = Vec::new();
                let view_args = ["config", "view"];
                proof {
                    assert(view_args@.map_values(|a: &str| a@) =~= seq!["config"@, "view"@]);
                }
                r.push(command("kubectl", &view_args));
                proof {
                    assert(r@.map_values(|c: ProviderCommand| c@) =~= commands_of(*self));
                }
                r
            },
        }
    }
}

} // verus!
