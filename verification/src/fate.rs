//! Telling the prediction server what became of a prediction.
use crate::outcome::{server_error, ExternalError, HttpStatus};
#[allow(unused_imports)]
use crate::outcome::server_error_text;
use crate::text::{chars_of, is_at, string_of};
use crate::wire::ExternalAcceptRequest;
use vstd::prelude::*;

verus! {

/// `s` ends with `p`.
pub open spec fn ends_with_text(s: Seq<char>, p: Seq<char>) -> bool {
    crate::text::occurs_at(s, p, s.len() - p.len())
}

/// `s` without its trailing slashes.
pub open spec fn without_trailing_slashes(s: Seq<char>) -> Seq<char>
    decreases s.len(),
{
    if s.len() > 0 && s.last() == '/' {
        without_trailing_slashes(s.drop_last())
    } else {
        s
    }
}

/// The address that takes the fate `endpoint`: it stands in for the final `/predict` of the
/// address that predicts, or else behind that address.
pub open spec fn fate_url(api_url: Seq<char>, endpoint: Seq<char>) -> Seq<char> {
    let base = if ends_with_text(api_url, "/predict"@) {
        api_url.take(api_url.len() - "/predict"@.len())
    } else {
        without_trailing_slashes(api_url)
    };
    base + "/"@ + endpoint
}

/// The address that takes the fate `endpoint` of a prediction that came from `api_url`.
pub fn external_fate_url(api_url: &str, endpoint: &str) -> (r: String)
    ensures
        r@ == fate_url(api_url@, endpoint@),
{
    let url = chars_of(api_url);
    let suffix = chars_of("/predict");
    let mut end: usize = url.len();
    if suffix.len() <= url.len() && is_at(&url, &suffix, url.len() - suffix.len()) {
        end = url.len() - suffix.len();
    } else {
        assert(url@.take(end as int) == url@);
        while end > 0 && url[end - 1] == '/'
            invariant
                end <= url@.len(),
                without_trailing_slashes(url@) == without_trailing_slashes(url@.take(end as int)),
            decreases end,
        {
            assert(url@.take(end as int).drop_last() == url@.take(end - 1));
            end -= 1;
        }
    }
    let mut r: String = string_of(&url, 0, end);
    assert(r@ == url@.take(end as int));
    r.append("/");
    r.append(endpoint);
    r
}

/// The address that takes acceptances.
pub fn external_accept_url(api_url: &str) -> (r: String)
    ensures
        r@ == fate_url(api_url@, "accept"@),
{
    external_fate_url(api_url, "accept")
}

/// The address that takes rejections.
pub fn external_reject_url(api_url: &str) -> (r: String)
    ensures
        r@ == fate_url(api_url@, "reject"@),
{
    external_fate_url(api_url, "reject")
}

/// The address that takes partial acceptances.
pub fn external_partial_accept_url(api_url: &str) -> (r: String)
    ensures
        r@ == fate_url(api_url@, "partial_accept"@),
{
    external_fate_url(api_url, "partial_accept")
}

/// The address of a fate ends with its name, and a slash at the end of the predicting address
/// makes no difference, unless that address ends with `/predict`.
pub proof fn law_fate_url(api_url: Seq<char>, endpoint: Seq<char>)
    ensures
        ends_with_text(fate_url(api_url, endpoint), "/"@ + endpoint),
        !ends_with_text(api_url, "/predict"@) ==> fate_url(api_url.push('/'), endpoint) == fate_url(
            api_url,
            endpoint,
        ),
{
    reveal_strlit("/predict");
    let url = fate_url(api_url, endpoint);
    let tail = "/"@ + endpoint;
    assert(url.subrange(url.len() - tail.len(), url.len() as int) =~= tail);
    let longer = api_url.push('/');
    assert(longer.drop_last() == api_url);
    if ends_with_text(longer, "/predict"@) {
        assert(longer.subrange(longer.len() - 8, longer.len() as int)[7] == "/predict"@[7]);
    }
}

/// A final `/predict` of the predicting address is replaced by the name of the fate.
pub proof fn law_fate_url_replaces_predict(base: Seq<char>, endpoint: Seq<char>)
    ensures
        fate_url(base + "/predict"@, endpoint) == base + "/"@ + endpoint,
{
    let api_url = base + "/predict"@;
    assert(api_url.subrange(api_url.len() - "/predict"@.len(), api_url.len() as int) =~= "/predict"@);
    assert(api_url.take(api_url.len() - "/predict"@.len()) =~= base);
}

// ---------------------------------------------------------------------------
// Sending a fate
// ---------------------------------------------------------------------------
/// What became of a prediction.
#[derive(Debug, Clone, Copy, PartialEq, Eq, Structural)]
pub enum Fate {
    Accept,
    Reject,
    PartialAccept,
}

impl Fate {
    /// The name of the fate.
    pub open spec fn endpoint_text(self) -> Seq<char> {
        match self {
            Fate::Accept => "accept"@,
            Fate::Reject => "reject"@,
            Fate::PartialAccept => "partial_accept"@,
        }
    }

    /// The name of the fate.
    pub fn endpoint(&self) -> (r: &'static str)
        ensures
            r@ == self.endpoint_text(),
    {
        match self {
            Fate::Accept => "accept",
            Fate::Reject => "reject",
            Fate::PartialAccept => "partial_accept",
        }
    }
}

/// What the sending of a fate waits for.
#[derive(Debug, PartialEq, Eq)]
pub enum FateTask {
    /// Post the request, as JSON, to the address.
    Post { fate: Fate, url: String, request: ExternalAcceptRequest },
    /// Read the body of an unsuccessful reply.
    ReadBody { fate: Fate, status: HttpStatus },
    /// Nothing is left to do.
    Finished(Result<(), ExternalError>),
}

/// What happened outside.
#[derive(Debug, PartialEq, Eq)]
pub enum FateEvent {
    /// The request could not be made.
    NotBuilt(String),
    /// The request could not be sent.
    NotSent(String),
    /// The server replied.
    Responded(HttpStatus),
    /// The body of the reply could not be read.
    NotRead(String),
    /// The body of the reply.
    Body(String),
}

impl FateTask {
    /// The task posts the fate of the prediction `id` to the server behind `api_url`.
    pub open spec fn posts(self, fate: Fate, api_url: Seq<char>, id: Seq<char>) -> bool {
        &&& self matches FateTask::Post { fate: f, url, request }
        &&& f == fate
        &&& url@ == fate_url(api_url, fate.endpoint_text())
        &&& request.id@ == id
    }

    /// The event answers what the task waits for.
    pub open spec fn expects(self, event: FateEvent) -> bool {
        match self {
            FateTask::Post { .. } => event is NotBuilt || event is NotSent || event is Responded,
            FateTask::ReadBody { .. } => event is NotRead || event is Body,
            FateTask::Finished(_) => false,
        }
    }

    /// `next` is what the task waits for after the event: a successful reply ends it well, any
    /// other reply is reported with its body.
    pub open spec fn leads_to(self, event: FateEvent, next: FateTask) -> bool {
        match (self, event) {
            (FateTask::Post { .. }, FateEvent::NotBuilt(reason)) => {
                &&& next matches FateTask::Finished(Err(error))
                &&& error.says(reason@)
            },
            (FateTask::Post { .. }, FateEvent::NotSent(reason)) => {
                &&& next matches FateTask::Finished(Err(error))
                &&& error.says_because(
                    "failed to send external edit prediction accept request"@,
                    reason@,
                )
            },
            (FateTask::Post { fate, .. }, FateEvent::Responded(status)) => if status.succeeded() {
                next == FateTask::Finished(Ok(()))
            } else {
                next == (FateTask::ReadBody { fate, status })
            },
            (FateTask::ReadBody { .. }, FateEvent::NotRead(reason)) => {
                &&& next matches FateTask::Finished(Err(error))
                &&& error.says(reason@)
            },
            (FateTask::ReadBody { fate, status }, FateEvent::Body(body)) => {
                &&& next matches FateTask::Finished(Err(error))
                &&& error.says(
                    server_error_text(fate.endpoint_text() + " "@, status.text@, body@),
                )
            },
            _ => false,
        }
    }

    /// Tells the server behind `api_url` of the fate of the prediction `id`.
    pub fn start(fate: Fate, api_url: &str, id: String) -> (r: FateTask)
        ensures
            r.posts(fate, api_url@, id@),
    {
        let url = external_fate_url(api_url, fate.endpoint());
        FateTask::Post { fate, url, request: ExternalAcceptRequest { id } }
    }

    /// Whether the event answers what the task waits for.
    pub fn awaits(&self, event: &FateEvent) -> (r: bool)
        ensures
            r == self.expects(*event),
    {
        match (self, event) {
            (FateTask::Post { .. }, FateEvent::NotBuilt(_)) => true,
            (FateTask::Post { .. }, FateEvent::NotSent(_)) => true,
            (FateTask::Post { .. }, FateEvent::Responded(_)) => true,
            (FateTask::ReadBody { .. }, FateEvent::NotRead(_)) => true,
            (FateTask::ReadBody { .. }, FateEvent::Body(_)) => true,
            _ => false,
        }
    }

    /// What the task waits for after the event.
    pub fn step(self, event: FateEvent) -> (r: FateTask)
        requires
            self.expects(event),
        ensures
            self.leads_to(event, r),
    {
        match (self, event) {
            (_, FateEvent::NotBuilt(reason)) => FateTask::Finished(Err(ExternalError::new(reason))),
            (_, FateEvent::NotSent(reason)) => FateTask::Finished(
                Err(
                    ExternalError::because(
                        "failed to send external edit prediction accept request",
                        reason,
                    ),
                ),
            ),
            (FateTask::Post { fate, .. }, FateEvent::Responded(status)) => {
                if status.is_success() {
                    FateTask::Finished(Ok(()))
                } else {
                    FateTask::ReadBody { fate, status }
                }
            },
            (FateTask::ReadBody { fate, status }, FateEvent::Body(body)) => {
                let mut kind: String = fate.endpoint().to_owned();
                kind.append(" ");
                FateTask::Finished(
                    Err(server_error(kind.as_str(), status.text.as_str(), body.as_str())),
                )
            },
            (_, FateEvent::NotRead(reason)) => FateTask::Finished(Err(ExternalError::new(reason))),
            (task, _) => task,
        }
    }
}

/// A fate has been told just if the server replied with success; any other reply ends in an
/// error once its body has been asked for.
pub proof fn law_fate_is_told(task: FateTask, event: FateEvent, next: FateTask)
    requires
        task.leads_to(event, next),
    ensures
        next == FateTask::Finished(Ok(())) <==> task is Post && (event matches FateEvent::Responded(
            status,
        ) && status.succeeded()),
        task is ReadBody ==> (next matches FateTask::Finished(Err(_))),
        next is Finished || next is ReadBody,
{
}

/// Where the predicting address does not end with `/predict`, the name of the fate stands behind
/// what is left of it without the slashes at its end, and nothing else is cut off.
pub proof fn law_fate_url_keeps_address(api_url: Seq<char>, endpoint: Seq<char>)
    requires
        api_url.len() < 8 || api_url.skip(api_url.len() - 8) != "/predict"@,
    ensures
        exists|n: int|
            {
                &&& 0 <= n <= api_url.len()
                &&& fate_url(api_url, endpoint) == #[trigger] api_url.take(n) + "/"@ + endpoint
                &&& forall|k: int| n <= k < api_url.len() ==> #[trigger] api_url[k] == '/'
                &&& n > 0 ==> api_url[n - 1] != '/'
            },
{
    reveal_strlit("/predict");
    assert("/predict"@.len() == 8);
    if api_url.len() >= 8 {
        assert(api_url.subrange(api_url.len() - 8, api_url.len() as int) =~= api_url.skip(
            api_url.len() - 8,
        ));
    }
    lemma_without_slashes(api_url);
    let n = without_trailing_slashes(api_url).len() as int;
    assert(fate_url(api_url, endpoint) == api_url.take(n) + "/"@ + endpoint);
}

/// Only slashes are cut off the end, and all that stand there.
proof fn lemma_without_slashes(s: Seq<char>)
    ensures
        without_trailing_slashes(s).len() <= s.len(),
        without_trailing_slashes(s) == s.take(without_trailing_slashes(s).len() as int),
        forall|k: int|
            without_trailing_slashes(s).len() <= k < s.len() ==> #[trigger] s[k] == '/',
        without_trailing_slashes(s).len() > 0 ==> s[without_trailing_slashes(s).len() - 1] != '/',
    decreases s.len(),
{
    if s.len() > 0 && s.last() == '/' {
        let rest = s.drop_last();
        lemma_without_slashes(rest);
        let n = without_trailing_slashes(rest).len() as int;
        assert(rest.take(n) =~= s.take(n));
        assert forall|k: int| n <= k < s.len() implies #[trigger] s[k] == '/' by {
            if k < rest.len() {
                assert(rest[k] == s[k]);
            }
        }
        if n > 0 {
            assert(rest[n - 1] == s[n - 1]);
        }
    } else {
        assert(s.take(s.len() as int) =~= s);
    }
}

/// Each fate has its own name, by which its address ends.
pub proof fn law_names_of_fates(fate: Fate)
    ensures
        fate is Accept ==> fate.endpoint_text() == "accept"@,
        fate is Reject ==> fate.endpoint_text() == "reject"@,
        fate is PartialAccept ==> fate.endpoint_text() == "partial_accept"@,
{
}

/// A report is posted to the address of its fate and names the prediction, whole.
pub proof fn law_report_is_posted(task: FateTask, fate: Fate, api_url: Seq<char>, id: Seq<char>)
    requires
        task.posts(fate, api_url, id),
    ensures
        task matches FateTask::Post { fate: posted, url, request } && posted == fate
            && request.id@ == id && url@ == fate_url(api_url, fate.endpoint_text()),
{
}

/// What is reported where a fate could not be told: that the request could not be made, or sent and
/// why; for an unsuccessful reply the fate, the status and the body of the reply, or why it could not
/// be read.
pub proof fn law_fate_errors(task: FateTask, event: FateEvent, next: FateTask)
    requires
        task.leads_to(event, next),
    ensures
        event matches FateEvent::NotBuilt(reason) ==> (next matches FateTask::Finished(Err(error))
            && error.message@ == reason@ && error.cause is None),
        event matches FateEvent::NotRead(reason) ==> (next matches FateTask::Finished(Err(error))
            && error.message@ == reason@ && error.cause is None),
        event matches FateEvent::NotSent(reason) ==> (next matches FateTask::Finished(Err(error))
            && error.message@ == "failed to send external edit prediction accept request"@
            && error.cause is Some && error.cause->0@ == reason@),
        task matches FateTask::Post { fate, .. } ==> (event matches FateEvent::Responded(status)
            ==> (status.code < 200 || status.code >= 300) ==> next == (FateTask::ReadBody {
            fate,
            status,
        })),
        task matches FateTask::ReadBody { fate, status } ==> (event matches FateEvent::Body(body)
            ==> (next matches FateTask::Finished(Err(error)) && error.cause is None
            && error.message@ == "external edit prediction "@ + (fate.endpoint_text() + " "@)
            + "server error: "@ + status.text@ + " - "@ + body@)),
        task is Post ==> event is NotBuilt || event is NotSent || event is Responded,
        task is ReadBody ==> event is NotRead || event is Body,
        !(task is Finished),
{
}

/// Posting is answered by a request that could not be made or sent, or by a reply; reading by a
/// body, or by one that could not be read; nothing else is an answer.
pub proof fn law_fate_answers(task: FateTask, reason: String, status: HttpStatus)
    ensures
        task.expects(FateEvent::NotBuilt(reason)) <==> task is Post,
        task.expects(FateEvent::NotSent(reason)) <==> task is Post,
        task.expects(FateEvent::Responded(status)) <==> task is Post,
        task.expects(FateEvent::NotRead(reason)) <==> task is ReadBody,
        task.expects(FateEvent::Body(reason)) <==> task is ReadBody,
{
}

} // verus!
