use vstd::prelude::*;

use crate::json::{
    column_items, column_json, decimal, json_of_bool, json_of_bytes, json_of_str, status_text,
    table_json, upload_json,
};
use crate::model::{columns_view, Column, Table};

verus! {

/// Why an operation did not complete.
pub enum DeployError {
    /// The program file could not be opened or read; holds the reason.
    FileAccess(String),
    /// A payload could not be encoded as JSON.
    Serialization,
    /// The request could not be sent or its answer not received; holds the reason.
    Transport(String),
    /// The backend answered with a status outside the success range.
    BackendRejected(u16),
}

/// Payload of the table-creation endpoint.
pub struct NewZephyrTableClient {
    pub table: String,
    pub columns: Vec<Column>,
}

/// Payload of the upload endpoint.
pub struct CodeUploadClient {
    pub code: Vec<u8>,
    pub force_replace: bool,
}

/// A POST request with a JSON body and a bearer token.
pub struct HttpRequest {
    pub url: String,
    pub content_type: String,
    pub authorization: String,
    pub body: String,
}

/// Where the backend lives and the token that every request carries.
pub struct MercuryClient {
    pub base_url: String,
    pub jwt: String,
}

/// What the backend's answer means: accepted, with the text it sent back, or
/// rejected, with its status code.
pub enum Outcome {
    Accepted { body: String },
    Rejected { status: u16 },
}

pub open spec fn is_success_status(status: u16) -> bool {
    200 <= status <= 299
}

/// The meaning of an answer with `status` and `body`.
pub open spec fn response_outcome(status: u16, body: Seq<char>) -> Result<Seq<char>, u16> {
    if is_success_status(status) {
        Ok(body)
    } else {
        Err(status)
    }
}

pub open spec fn rejection_line(status: u16) -> Seq<char> {
    "[-] Request failed with status code: "@ + decimal(status as nat)
}

pub open spec fn table_created_line(body: Seq<char>) -> Seq<char> {
    "[+] Table \""@ + body + "\" created successfully"@
}

pub open spec fn deployed_line() -> Seq<char> {
    "[+] Deployed was successful!"@
}

/// The line reported after a table-creation request.
pub open spec fn table_report_text(o: Result<Seq<char>, u16>) -> Seq<char> {
    match o {
        Ok(body) => table_created_line(body),
        Err(status) => rejection_line(status),
    }
}

/// The line reported after an upload request.
pub open spec fn deploy_report_text(o: Result<Seq<char>, u16>) -> Seq<char> {
    match o {
        Ok(_) => deployed_line(),
        Err(status) => rejection_line(status),
    }
}

/// An answer in the success range is accepted with its text unchanged, and
/// the table report quotes that text.
pub proof fn lemma_success_reports_body(status: u16, body: Seq<char>)
    requires
        200 <= status <= 299,
    ensures
        response_outcome(status, body) == Ok::<Seq<char>, u16>(body),
        table_report_text(response_outcome(status, body)) == "[+] Table \""@ + body + "\" created successfully"@,
        deploy_report_text(response_outcome(status, body)) == deployed_line(),
{
}

/// An answer outside the success range is a rejection, whatever its text,
/// and both operations report its status code in decimal.
pub proof fn lemma_rejection_reports_status(status: u16, body: Seq<char>)
    requires
        !(200 <= status <= 299),
    ensures
        response_outcome(status, body) == Err::<Seq<char>, u16>(status),
        table_report_text(response_outcome(status, body)) == "[-] Request failed with status code: "@ + decimal(status as nat),
        deploy_report_text(response_outcome(status, body)) == "[-] Request failed with status code: "@ + decimal(status as nat),
{
}

impl View for Outcome {
    type V = Result<Seq<char>, u16>;

    open spec fn view(&self) -> Result<Seq<char>, u16> {
        match self {
            Outcome::Accepted { body } => Ok(body@),
            Outcome::Rejected { status } => Err(*status),
        }
    }
}

impl Outcome {
    /// Classifies an answer by its status alone; no other request follows.
    pub fn from_response(status: u16, body: String) -> (r: Outcome)
        ensures
            r@ == response_outcome(status, body@),
    {
        if 200 <= status && status <= 299 {
            Outcome::Accepted { body }
        } else {
            Outcome::Rejected { status }
        }
    }

    /// The line to report after a table-creation request.
    pub fn table_report(&self) -> (r: String)
        ensures
            r@ == table_report_text(self@),
    {
        match self {
            Outcome::Accepted { body } => {
                let mut s = String::from_str("[+] Table \"");
                s.append(body.as_str());
                s.append("\" created successfully");
                s
            },
            Outcome::Rejected { status } => rejection_report(*status),
        }
    }

    /// The line to report after an upload request.
    pub fn deploy_report(&self) -> (r: String)
        ensures
            r@ == deploy_report_text(self@),
    {
        match self {
            Outcome::Accepted { .. } => String::from_str("[+] Deployed was successful!"),
            Outcome::Rejected { status } => rejection_report(*status),
        }
    }

    /// A rejection as an error, for callers that treat it as a failure.
    pub fn as_result(&self) -> (r: Result<(), DeployError>)
        ensures
            self@ is Ok ==> r is Ok,
            self@ is Err ==> r == Err::<(), DeployError>(DeployError::BackendRejected(self@->Err_0)),
    {
        match self {
            Outcome::Accepted { .. } => Ok(()),
            Outcome::Rejected { status } => Err(DeployError::BackendRejected(*status)),
        }
    }
}

fn rejection_report(status: u16) -> (r: String)
    ensures
        r@ == rejection_line(status),
{
    let s = String::from_str("[-] Request failed with status code: ");
    let digits = status_text(status);
    s.concat(digits.as_str())
}

/// Appends `r`'s text, or gives the error that a failed encoding maps to.
fn append_json(out: &mut String, r: Result<String, serde_json::Error>) -> (res: Result<(), DeployError>)
    ensures
        r is Ok ==> res is Ok && final(out)@ == old(out)@ + r->Ok_0@,
        r is Err ==> res is Err && res->Err_0 is Serialization,
{
    match r {
        Ok(t) => {
            out.append(t.as_str());
            Ok(())
        },
        Err(_) => Err(DeployError::Serialization),
    }
}

fn column_to_json(c: &Column) -> (r: Result<String, DeployError>)
    ensures
        r is Ok,
        r->Ok_0@ == column_json(c@),
{
    let mut out = String::from_str("{\"name\":");
    if let Err(e) = append_json(&mut out, json_of_str(c.name.as_str())) {
        return Err(e);
    }
    out.append(",\"col_type\":");
    if let Err(e) = append_json(&mut out, json_of_str(c.col_type.as_str())) {
        return Err(e);
    }
    out.append("}");
    Ok(out)
}

impl NewZephyrTableClient {
    /// The payload for `table`: its name, and its columns copied field for
    /// field in the same order.
    pub fn from_table(table: Table) -> (r: NewZephyrTableClient)
        ensures
            r.table@ == table.name@,
            columns_view(r.columns@) == columns_view(table.columns@),
    {
        let mut cols: Vec<Column> = Vec::new();
        let n = table.columns.len();
        let mut i: usize = 0;
        while i < n
            invariant
                n == table.columns@.len(),
                i <= n,
                cols@.len() == i,
                forall|j: int| 0 <= j < i ==> #[trigger] cols@[j]@ == table.columns@[j]@,
            decreases n - i,
        {
            let c = table.columns[i].duplicate();
            cols.push(c);
            i = i + 1;
        }
        assert(columns_view(cols@) =~= columns_view(table.columns@));
        NewZephyrTableClient { table: table.name, columns: cols }
    }

    /// The JSON text of this payload.
    pub fn to_json(&self) -> (r: Result<String, DeployError>)
        ensures
            r is Ok,
            r->Ok_0@ == table_json(self.table@, columns_view(self.columns@)),
    {
        let ghost cv = columns_view(self.columns@);
        let mut items = String::new();
        let n = self.columns.len();
        let mut i: usize = 0;
        while i < n
            invariant
                n == self.columns@.len(),
                cv == columns_view(self.columns@),
                i <= n,
                items@ == column_items(cv.take(i as int)),
            decreases n - i,
        {
            let c = match column_to_json(&self.columns[i]) {
                Ok(c) => c,
                Err(e) => return Err(e),
            };
            assert(cv.take(i + 1).drop_last() == cv.take(i as int));
            assert(cv.take(i + 1).len() == i + 1);
            assert(cv[i as int] == self.columns@[i as int]@);
            assert(cv.take(i + 1).last() == cv[i as int]);
            proof {
                reveal_strlit(",");
            }
            if i > 0 {
                items.append(",");
            }
            items.append(c.as_str());
            assert(items@ == column_items(cv.take(i + 1)));
            i = i + 1;
        }
        assert(cv.take(n as int) == cv);
        let mut out = String::from_str("{\"table\":");
        if let Err(e) = append_json(&mut out, json_of_str(self.table.as_str())) {
            return Err(e);
        }
        out.append(",\"columns\":[");
        out.append(items.as_str());
        out.append("]}");
        Ok(out)
    }
}

impl CodeUploadClient {
    /// The payload for a program bundle: its bytes as read, and the flag.
    pub fn new(code: Vec<u8>, force_replace: bool) -> (r: CodeUploadClient)
        ensures
            r.code@ == code@,
            r.force_replace == force_replace,
    {
        CodeUploadClient { code, force_replace }
    }

    /// The JSON text of this payload.
    pub fn to_json(&self) -> (r: Result<String, DeployError>)
        ensures
            r is Ok,
            r->Ok_0@ == upload_json(self.code@, self.force_replace),
    {
        let mut out = String::from_str("{\"code\":");
        if let Err(e) = append_json(&mut out, json_of_bytes(self.code.as_slice())) {
            return Err(e);
        }
        out.append(",\"force_replace\":");
        if let Err(e) = append_json(&mut out, json_of_bool(self.force_replace)) {
            return Err(e);
        }
        out.append("}");
        Ok(out)
    }
}

/// `req` is a JSON POST by `client` to the endpoint `path` with `body`.
pub open spec fn is_post(req: HttpRequest, client: MercuryClient, path: Seq<char>, body: Seq<char>) -> bool {
    &&& req.url@ == client.base_url@ + path
    &&& req.content_type@ == "application/json"@
    &&& req.authorization@ == "Bearer "@ + client.jwt@
    &&& req.body@ == body
}

impl MercuryClient {
    pub fn new(base_url: String, jwt: String) -> (r: Self)
        ensures
            r.base_url@ == base_url@,
            r.jwt@ == jwt@,
    {
        Self { base_url, jwt }
    }

    fn post(&self, path: &str, body: String) -> (r: HttpRequest)
        ensures
            is_post(r, *self, path@, body@),
    {
        let url = self.base_url.clone().concat(path);
        let authorization = String::from_str("Bearer ").concat(self.jwt.as_str());
        HttpRequest { url, content_type: String::from_str("application/json"), authorization, body }
    }

    /// The request that registers `table` with the backend.
    pub fn new_table_request(&self, table: Table) -> (r: Result<HttpRequest, DeployError>)
        ensures
            r is Ok,
            is_post(
                r->Ok_0,
                *self,
                "/zephyr_table_new"@,
                table_json(table.name@, columns_view(table.columns@)),
            ),
    {
        let payload = NewZephyrTableClient::from_table(table);
        match payload.to_json() {
            Ok(body) => Ok(self.post("/zephyr_table_new", body)),
            Err(e) => Err(e),
        }
    }

    /// The request that uploads `code`, replacing an existing deployment
    /// when `force_replace` holds.
    pub fn upload_request(&self, code: Vec<u8>, force_replace: bool) -> (r: Result<HttpRequest, DeployError>)
        ensures
            r is Ok,
            is_post(r->Ok_0, *self, "/zephyr_upload"@, upload_json(code@, force_replace)),
    {
        let payload = CodeUploadClient::new(code, force_replace);
        match payload.to_json() {
            Ok(body) => Ok(self.post("/zephyr_upload", body)),
            Err(e) => Err(e),
        }
    }

    /// The upload request for the outcome of reading the program file: a
    /// failed read is reported as such, and no request is built.
    pub fn deploy_request(&self, bundle: Result<Vec<u8>, String>, force_replace: bool) -> (r: Result<HttpRequest, DeployError>)
        ensures
            bundle is Err <==> r is Err,
            bundle is Err ==> (r->Err_0 matches DeployError::FileAccess(m) && m@ == bundle->Err_0@),
            bundle is Ok ==> is_post(r->Ok_0, *self, "/zephyr_upload"@, upload_json(bundle->Ok_0@, force_replace)),
    {
        match bundle {
            Ok(code) => self.upload_request(code, force_replace),
            Err(reason) => Err(DeployError::FileAccess(reason)),
        }
    }
}

} // verus!
