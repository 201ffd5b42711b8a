use vstd::prelude::*;

verus! {

/// What a command does when it runs: one operation of the remote API.
#[derive(Clone, Copy, Debug, PartialEq, Eq, Structural)]
pub enum Operation {
    ListOrganizations,
    GetOrganization,
    ListExports,
    GetExport,
    CreateExport,
    ListUsers,
    GetUser,
}

/// The HTTP method of a request.
#[derive(Clone, Copy, Debug, PartialEq, Eq, Structural)]
pub enum Method {
    Get,
    Post,
}

/// The body of a request that creates an export.
pub struct ExportParams {
    pub export_type: String,
    pub format: String,
}

/// One request to the remote API: a method, a path below the base URL, and for
/// a new export the parameters it is created with.
pub struct ApiRequest {
    pub method: Method,
    pub path: String,
    pub body: Option<ExportParams>,
}

pub open spec fn environment_prefix(environment_id: Seq<char>) -> Seq<char> {
    "/api/v0/environments/"@ + environment_id
}

/// The path that each operation is sent to.
pub open spec fn path_spec(op: Operation, environment_id: Seq<char>, argument: Seq<char>) -> Seq<
    char,
> {
    match op {
        Operation::ListOrganizations => "/api/v0/environments/organizations"@,
        Operation::GetOrganization => environment_prefix(environment_id) + "/organizations/"@
            + argument,
        Operation::ListExports => environment_prefix(environment_id) + "/exports"@,
        Operation::GetExport => environment_prefix(environment_id) + "/exports/"@ + argument,
        Operation::CreateExport => environment_prefix(environment_id) + "/exports"@,
        Operation::ListUsers => environment_prefix(environment_id) + "/users"@,
        Operation::GetUser => environment_prefix(environment_id) + "/users/"@ + argument,
    }
}

/// The export types that can be asked for, in the order offered.
pub open spec fn export_types_spec() -> Seq<Seq<char>> {
    seq!["users"@, "organizations"@, "wallets"@]
}

/// The path `"/api/v0/environments/" + environment_id + suffix + argument`.
fn environment_path(environment_id: &str, suffix: &str, argument: &str) -> (r: String)
    ensures
        r@ == environment_prefix(environment_id@) + suffix@ + argument@,
{
    let mut r = String::from_str("/api/v0/environments/");
    r.append(environment_id);
    r.append(suffix);
    r.append(argument);
    r
}

/// The full address of `path` on the server at `base_url`.
pub fn request_url(base_url: &str, path: &str) -> (r: String)
    ensures
        r@ == base_url@ + path@,
{
    let mut r = String::from_str(base_url);
    r.append(path);
    r
}

/// The export types that can be asked for, in the order offered.
pub fn export_types() -> (r: Vec<String>)
    ensures
        r@.len() == 3,
        forall|i: int| 0 <= i < 3 ==> #[trigger] r@[i]@ == export_types_spec()[i],
{
    let mut r: Vec<String> = Vec::new();
    r.push(String::from_str("users"));
    r.push(String::from_str("organizations"));
    r.push(String::from_str("wallets"));
    r
}

/// The parameters of a new export of `export_type`, always in CSV.
pub fn export_params(export_type: &str) -> (r: ExportParams)
    ensures
        r.export_type@ == export_type@,
        r.format@ == "csv"@,
{
    ExportParams { export_type: String::from_str(export_type), format: String::from_str("csv") }
}

impl Operation {
    /// Whether the operation asks for an environment.
    pub fn needs_environment(&self) -> (r: bool)
        ensures
            r == (*self != Operation::ListOrganizations),
    {
        !matches!(self, Operation::ListOrganizations)
    }

    /// Whether the operation asks for the identifier of one resource.
    pub fn needs_resource_id(&self) -> (r: bool)
        ensures
            r == (*self == Operation::GetOrganization || *self == Operation::GetExport || *self
                == Operation::GetUser),
    {
        matches!(self, Operation::GetOrganization | Operation::GetExport | Operation::GetUser)
    }

    /// The request that performs the operation in `environment_id`. `argument` is
    /// the identifier of the resource asked for, or for a new export its type;
    /// operations that need neither ignore it.
    pub fn request(&self, environment_id: &str, argument: &str) -> (r: ApiRequest)
        ensures
            r.path@ == path_spec(*self, environment_id@, argument@),
            r.method == (if *self == Operation::CreateExport {
                Method::Post
            } else {
                Method::Get
            }),
            match r.body {
                Some(b) => *self == Operation::CreateExport && b.export_type@ == argument@
                    && b.format@ == "csv"@,
                None => *self != Operation::CreateExport,
            },
    {
        proof {
            reveal_strlit("");
            assert(""@ =~= Seq::<char>::empty());
        }
        match self {
            Operation::ListOrganizations => ApiRequest {
                method: Method::Get,
                path: String::from_str("/api/v0/environments/organizations"),
                body: None,
            },
            Operation::GetOrganization => ApiRequest {
                method: Method::Get,
                path: environment_path(environment_id, "/organizations/", argument),
                body: None,
            },
            Operation::ListExports => ApiRequest {
                method: Method::Get,
                path: environment_path(environment_id, "/exports", ""),
                body: None,
            },
            Operation::GetExport => ApiRequest {
                method: Method::Get,
                path: environment_path(environment_id, "/exports/", argument),
                body: None,
            },
            Operation::CreateExport => ApiRequest {
                method: Method::Post,
                path: environment_path(environment_id, "/exports", ""),
                body: Some(export_params(argument)),
            },
            Operation::ListUsers => ApiRequest {
                method: Method::Get,
                path: environment_path(environment_id, "/users", ""),
                body: None,
            },
            Operation::GetUser => ApiRequest {
                method: Method::Get,
                path: environment_path(environment_id, "/users/", argument),
                body: None,
            },
        }
    }
}

} // verus!
