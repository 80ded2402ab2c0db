//! The records of the service, the login data, and the signed-in user whose
//! requests and replies this library prepares and reads.

use crate::date::{day_precedes, iso_date, Date, Timestamp};
use crate::grades::{all_listed, graded_as, spec_acronyms, SubjectGrades};
use crate::http::{accepted, bearer_get, Endpoint, Field, Method, Reply, Request, RequestView, TOKEN_URL};
use crate::text::{push_decimal, spec_decimal};
use crate::tools::{
    base64_len, base64_standard, is_url_safe, lemma_url_safe_idempotent, lemma_url_safe_plain,
    random_bytes, sha256, sha256_digest, spec_url_encode, url_encode, url_safe,
};
use crate::{Error, Res};
use vstd::prelude::*;
use vstd::string::StringExecFns;
use vstd::utf8::encode_utf8;

verus! {

pub const AUTHORIZE_URL: &'static str = "https://inloggen.somtoday.nl/oauth2/authorize";

pub const REDIRECT_URI: &'static str = "somtodayleerling://oauth/callback";

pub const CLIENT_ID: &'static str = "D50E0C06-32D1-4B41-A137-A9A850C892C2";

pub const TENANT_UUID: &'static str = "ec284fda-3d0f-4f54-a77e-91d94b94ff1a";

pub const STATE: &'static str = "sompp";

/// How many random bytes a verifier is made of.
pub const VERIFIER_BYTES: usize = 32;

/// How many items one page of grades asks for.
pub const PAGE_SIZE: usize = 100;

#[derive(Clone, Debug, PartialEq, Eq)]
pub struct Link {
    pub id: usize,
}

#[derive(Clone, Debug, PartialEq, Eq)]
pub struct Student {
    pub links: Vec<Link>,
}

#[derive(Clone, Debug, PartialEq, Eq)]
pub struct Subject {
    pub name: String,
    pub acronym: String,
}

#[derive(Clone, Debug, PartialEq, Eq)]
pub struct Grade {
    pub result: Option<String>,
    pub description: Option<String>,
    pub ty: String,
    pub subject: Subject,
}

#[derive(Clone, Debug, PartialEq, Eq)]
pub struct Appointment {
    pub title: String,
    pub links: Vec<Link>,
}

#[derive(Clone, Debug, PartialEq, Eq)]
pub struct Homework {
    pub studiewijzer_item: StudiewijzerItem,
    pub lesson_group: LessonGroup,
    pub date_time: Timestamp,
}

#[derive(Clone, Debug, PartialEq, Eq)]
pub struct LessonGroup {
    pub subject: Subject,
}

#[derive(Clone, Debug, PartialEq, Eq)]
pub struct StudiewijzerItem {
    pub topic: String,
    pub description: String,
}

#[derive(Clone, Debug, PartialEq, Eq)]
pub struct Students {
    pub items: Vec<Student>,
}

#[derive(Clone, Debug, PartialEq, Eq)]
pub struct Subjects {
    pub items: Vec<Subject>,
}

#[derive(Clone, Debug, PartialEq, Eq)]
pub struct Grades {
    pub items: Vec<Grade>,
}

#[derive(Clone, Debug, PartialEq, Eq)]
pub struct Schedule {
    pub items: Vec<Appointment>,
}

#[derive(Clone, Debug, PartialEq, Eq)]
pub struct MultHomework {
    pub items: Vec<Homework>,
}

/// The address to log in at, with the secret that the later exchange of the
/// code must present and the challenge derived from it.
#[derive(Clone, Debug, PartialEq, Eq)]
pub struct UserUrl {
    pub url: String,
    pub verifier: String,
    pub challenge: String,
}

/// The tokens of a session.
#[derive(Clone, Debug, PartialEq, Eq)]
pub struct UserData {
    pub access_token: String,
    pub refresh_token: String,
    pub somtoday_api_url: String,
    pub somtoday_oop_url: String,
    pub id_token: String,
}

/// The body of a reply of the token endpoint, each field as far as it was
/// there.
#[derive(Clone, Debug, PartialEq, Eq)]
pub struct TokenFields {
    pub access_token: Option<String>,
    pub refresh_token: Option<String>,
    pub somtoday_api_url: Option<String>,
    pub somtoday_oop_url: Option<String>,
    pub id_token: Option<String>,
}

/// The challenge that belongs to a verifier: the SHA-256 digest of the
/// verifier's text, in URL-safe base64 without padding.
pub open spec fn spec_challenge(verifier: Seq<char>) -> Seq<char> {
    spec_url_encode(sha256_digest(encode_utf8(verifier)))
}

/// The address at which a login with this challenge starts.
pub open spec fn spec_authorize_url(challenge: Seq<char>) -> Seq<char> {
    AUTHORIZE_URL@ + "?response_type=code&prompt=login&redirect_uri="@ + REDIRECT_URI@
        + "&client_id="@ + CLIENT_ID@ + "&state="@ + STATE@ + "&scope=openid&tenant_uuid="@
        + TENANT_UUID@ + "&session=no_session&code_challenge_method=S256&code_challenge="@
        + challenge
}

/// The challenge is a function of the verifier alone: the same verifier
/// always has the same challenge.
pub proof fn lemma_challenge_is_determined(first: Seq<char>, second: Seq<char>)
    requires
        first == second,
    ensures
        spec_challenge(first) == spec_challenge(second),
{
}

/// A challenge holds no padding, nor `+` or `/`, and making it URL-safe
/// once more changes nothing.
pub proof fn lemma_challenge_is_plain(verifier: Seq<char>)
    ensures
        forall|i: int|
            0 <= i < spec_challenge(verifier).len() ==> {
                let c = #[trigger] spec_challenge(verifier)[i];
                c != '=' && c != '+' && c != '/'
            },
        url_safe(spec_challenge(verifier)) == spec_challenge(verifier),
{
    let encoded = base64_standard(sha256_digest(encode_utf8(verifier)));
    lemma_url_safe_plain(encoded);
    lemma_url_safe_idempotent(encoded);
}

/// The round trip of a login: the exchange that is given the verifier of a
/// login address presents exactly that verifier, and the challenge that
/// belongs to what it presents is the one the address carried.
pub proof fn lemma_exchange_matches_login(login: UserUrl, code: Seq<char>)
    requires
        login.paired(),
    ensures
        spec_token_request(code, login.verifier@).form[2] == ("code_verifier"@, login.verifier@),
        spec_token_request(code, login.verifier@).form[3] == ("code"@, code),
        spec_challenge(spec_token_request(code, login.verifier@).form[2].1) == login.challenge@,
        login.url@ == spec_authorize_url(
            spec_challenge(spec_token_request(code, login.verifier@).form[2].1),
        ),
{
}

impl UserUrl {
    /// The challenge is the one that belongs to the verifier, and the address
    /// carries that challenge.
    pub open spec fn paired(self) -> bool {
        &&& self.challenge@ == spec_challenge(self.verifier@)
        &&& self.url@ == spec_authorize_url(self.challenge@)
    }

    /// The challenge that belongs to `verifier`.
    pub fn challenge_for(verifier: &str) -> (challenge: String)
        ensures
            challenge@ == spec_challenge(verifier@),
            is_url_safe(challenge@),
    {
        let digest = sha256(verifier.as_bytes());
        url_encode(digest.as_slice())
    }

    /// The address at which a login with `challenge` starts.
    pub fn authorize_url(challenge: &str) -> (url: String)
        ensures
            url@ == spec_authorize_url(challenge@),
    {
        let mut url = String::from_str(AUTHORIZE_URL);
        url.append("?response_type=code&prompt=login&redirect_uri=");
        url.append(REDIRECT_URI);
        url.append("&client_id=");
        url.append(CLIENT_ID);
        url.append("&state=");
        url.append(STATE);
        url.append("&scope=openid&tenant_uuid=");
        url.append(TENANT_UUID);
        url.append("&session=no_session&code_challenge_method=S256&code_challenge=");
        url.append(challenge);
        url
    }

    /// The login address for the verifier made of `bytes`.
    pub fn from_random(bytes: &[u8]) -> (login: UserUrl)
        requires
            base64_len(bytes@.len()) <= isize::MAX,
        ensures
            login.verifier@ == spec_url_encode(bytes@),
            login.paired(),
            is_url_safe(login.verifier@),
            is_url_safe(login.challenge@),
    {
        let verifier = url_encode(bytes);
        let challenge = UserUrl::challenge_for(verifier.as_str());
        let url = UserUrl::authorize_url(challenge.as_str());
        UserUrl { url, verifier, challenge }
    }
}

/// The request that exchanges `code` for tokens, presenting `verifier`.
pub open spec fn spec_token_request(code: Seq<char>, verifier: Seq<char>) -> RequestView {
    RequestView {
        method: Method::Post,
        url: TOKEN_URL@,
        headers: seq![("Content-Type"@, "application/x-www-form-urlencoded"@)],
        query: Seq::empty(),
        form: seq![
            ("grant_type"@, "authorization_code"@),
            ("redirect_uri"@, REDIRECT_URI@),
            ("code_verifier"@, verifier),
            ("code"@, code),
            ("scope"@, "openid"@),
            ("client_id"@, CLIENT_ID@),
        ],
    }
}

/// The tokens in the reply to an exchange, which is turned down unless the
/// status is from 200 to 299 and every field is there.
pub open spec fn spec_with_code(reply: Reply<TokenFields>) -> Res<UserData> {
    match reply {
        Reply::Status {
            status,
            body: Some(
                TokenFields {
                    access_token: Some(access_token),
                    refresh_token: Some(refresh_token),
                    somtoday_api_url: Some(somtoday_api_url),
                    somtoday_oop_url: Some(somtoday_oop_url),
                    id_token: Some(id_token),
                },
            ),
        } if 200 <= status <= 299 => Ok(
            UserData { access_token, refresh_token, somtoday_api_url, somtoday_oop_url, id_token },
        ),
        _ => Err(Error::Auth),
    }
}

impl UserData {
    /// A fresh login address: a verifier from 32 random bytes, its challenge,
    /// and the address that carries the challenge.
    pub fn url() -> (login: UserUrl)
        ensures
            login.paired(),
            exists|bytes: Seq<u8>|
                bytes.len() == VERIFIER_BYTES && login.verifier@ == #[trigger] spec_url_encode(
                    bytes,
                ),
            is_url_safe(login.verifier@),
            is_url_safe(login.challenge@),
    {
        let bytes = random_bytes(VERIFIER_BYTES);
        UserUrl::from_random(bytes.as_slice())
    }

    /// The request that exchanges `code` for tokens. `verifier` is the one
    /// that came with the login address.
    pub fn with_code_request(code: &str, verifier: &str) -> (request: Request)
        ensures
            request@ == spec_token_request(code@, verifier@),
    {
        let mut headers: Vec<Field> = Vec::new();
        headers.push(Field::literal("Content-Type", "application/x-www-form-urlencoded"));
        let mut form: Vec<Field> = Vec::new();
        form.push(Field::literal("grant_type", "authorization_code"));
        form.push(Field::literal("redirect_uri", REDIRECT_URI));
        form.push(Field::literal("code_verifier", verifier));
        form.push(Field::literal("code", code));
        form.push(Field::literal("scope", "openid"));
        form.push(Field::literal("client_id", CLIENT_ID));
        let request = Request {
            method: Method::Post,
            url: String::from_str(TOKEN_URL),
            headers,
            query: Vec::new(),
            form,
        };
        assert(request@.headers =~= spec_token_request(code@, verifier@).headers);
        assert(request@.query =~= spec_token_request(code@, verifier@).query);
        assert(request@.form =~= spec_token_request(code@, verifier@).form);
        request
    }

    /// The tokens in the reply to an exchange.
    pub fn with_code(reply: Reply<TokenFields>) -> (data: Res<UserData>)
        ensures
            data == spec_with_code(reply),
    {
        match reply {
            Reply::Status { status, body: Some(fields) } => {
                if status < 200 || status > 299 {
                    return Err(Error::Auth);
                }
                match (
                    fields.access_token,
                    fields.refresh_token,
                    fields.somtoday_api_url,
                    fields.somtoday_oop_url,
                    fields.id_token,
                ) {
                    (
                        Some(access_token),
                        Some(refresh_token),
                        Some(somtoday_api_url),
                        Some(somtoday_oop_url),
                        Some(id_token),
                    ) => Ok(
                        UserData {
                            access_token,
                            refresh_token,
                            somtoday_api_url,
                            somtoday_oop_url,
                            id_token,
                        },
                    ),
                    _ => Err(Error::Auth),
                }
            },
            _ => Err(Error::Auth),
        }
    }
}

/// The one student's identifier, where the list holds exactly one student
/// with exactly one link.
pub open spec fn spec_student_id(students: Students) -> Option<usize> {
    if students.items@.len() == 1 && students.items@[0].links@.len() == 1 {
        Some(students.items@[0].links@[0].id)
    } else {
        None
    }
}

/// What a reply to the student list gives.
pub open spec fn spec_id(reply: Reply<Students>) -> Res<usize> {
    match accepted(Endpoint::Students, reply) {
        Err(e) => Err(e),
        Ok(students) => match spec_student_id(students) {
            Some(id) => Ok(id),
            None => Err(Error::UnexpectedShape),
        },
    }
}

/// Those of `items` that fall on a day strictly before `end`, in their order.
pub open spec fn due_before(items: Seq<Homework>, end: Date) -> Seq<Homework> {
    items.filter(|h: Homework| day_precedes(h.date_time.date.ymd(), end.ymd()))
}

/// The end of the range is exclusive: what is kept falls strictly before
/// `end`, whatever falls before `end` is kept, and nothing on the day `end`
/// itself is.
pub proof fn lemma_due_before(items: Seq<Homework>, end: Date)
    ensures
        forall|i: int|
            0 <= i < due_before(items, end).len() ==> day_precedes(
                (#[trigger] due_before(items, end)[i]).date_time.date.ymd(),
                end.ymd(),
            ),
        forall|i: int|
            0 <= i < items.len() && day_precedes(items[i].date_time.date.ymd(), end.ymd())
                ==> due_before(items, end).contains(#[trigger] items[i]),
        forall|i: int|
            0 <= i < items.len() && items[i].date_time.date.ymd() == end.ymd() ==> !due_before(
                items,
                end,
            ).contains(#[trigger] items[i]),
{
    let early = |h: Homework| day_precedes(h.date_time.date.ymd(), end.ymd());
    items.filter_lemma(early);
    assert forall|i: int|
        0 <= i < items.len() && items[i].date_time.date.ymd() == end.ymd() implies !due_before(
        items,
        end,
    ).contains(#[trigger] items[i]) by {
        if due_before(items, end).contains(items[i]) {
            let j = choose|j: int|
                0 <= j < due_before(items, end).len() && due_before(items, end)[j] == items[i];
            assert(early(due_before(items, end)[j]));
        }
    }
}

/// What a reply to a homework request gives: the items before `end`.
pub open spec fn homework_before(
    endpoint: Endpoint,
    reply: Reply<MultHomework>,
    end: Date,
    homework: Res<MultHomework>,
) -> bool {
    match accepted(endpoint, reply) {
        Err(e) => homework == Err::<MultHomework, Error>(e),
        Ok(body) => homework matches Ok(kept) && kept.items@ == due_before(body.items@, end),
    }
}

/// The request for the homework of one kind from `begin` on.
pub open spec fn spec_homework_request(endpoint: Endpoint, token: Seq<char>, begin: Date) -> RequestView {
    bearer_get(
        endpoint.spec_url(),
        token,
        Seq::empty(),
        seq![("begintNaOfOp"@, iso_date(begin.ymd().0, begin.ymd().1, begin.ymd().2))],
    )
}

fn keep_before(items: Vec<Homework>, end: &Date) -> (kept: Vec<Homework>)
    ensures
        kept@ == due_before(items@, *end),
{
    let mut kept: Vec<Homework> = Vec::new();
    let ghost all = items@;
    let ghost early = |h: Homework| day_precedes(h.date_time.date.ymd(), end.ymd());
    for item in it: items
        invariant
            it.seq() == all,
            early == (|h: Homework| day_precedes(h.date_time.date.ymd(), end.ymd())),
            kept@ == all.take(it.index() as int).filter(early),
    {
        proof {
            let i = it.index() as int;
            assert(all.take(i + 1).drop_last() == all.take(i));
            assert(all.take(i + 1).last() == item);
            reveal(Seq::filter);
        }
        if item.date_time.date.is_before(end) {
            kept.push(item);
        }
    }
    assert(all.take(all.len() as int) == all);
    kept
}

fn homework_request(endpoint: Endpoint, token: &str, begin: Date) -> (request: Request)
    ensures
        request@ == spec_homework_request(endpoint, token@, begin),
{
    let request = Request::get(endpoint.url(), token).param("begintNaOfOp", begin.format());
    assert(request@.query =~= spec_homework_request(endpoint, token@, begin).query);
    request
}

fn homework(endpoint: Endpoint, reply: Reply<MultHomework>, end: Date) -> (homework: Res<
    MultHomework,
>)
    ensures
        homework_before(endpoint, reply, end, homework),
{
    let body = reply.accept(endpoint)?;
    Ok(MultHomework { items: keep_before(body.items, &end) })
}

/// A readable list of students that does not hold exactly one student
/// with exactly one link is an unexpected shape, and only such a list is.
pub proof fn lemma_id_shape(reply: Reply<Students>)
    ensures
        spec_id(reply) == Err::<usize, Error>(Error::UnexpectedShape) <==> (accepted(
            Endpoint::Students,
            reply,
        ) matches Ok(students) && !(students.items@.len() == 1 && students.items@[0].links@.len()
            == 1)),
{
}

/// The `Range` header that asks for the page of grades starting at `offset`.
pub open spec fn spec_range(offset: nat) -> Seq<char> {
    "items="@ + spec_decimal(offset) + "-"@ + spec_decimal((offset + PAGE_SIZE - 1) as nat)
}

/// The address of the grades of a student.
pub open spec fn spec_grades_url(student: nat) -> Seq<char> {
    Endpoint::Grades.spec_url() + spec_decimal(student)
}

/// A signed-in user.
#[derive(Clone, Debug, PartialEq, Eq)]
pub struct User {
    pub data: UserData,
}

impl User {
    pub fn new(data: UserData) -> (user: Res<User>)
        ensures
            user == Ok::<User, Error>(User { data }),
    {
        Ok(User { data })
    }

    /// The request for the student list.
    pub fn id_request(&self) -> (request: Request)
        ensures
            request@ == bearer_get(
                Endpoint::Students.spec_url(),
                self.data.access_token@,
                Seq::empty(),
                Seq::empty(),
            ),
    {
        Request::get(Endpoint::Students.url(), self.data.access_token.as_str())
    }

    /// The student's identifier from the reply to `id_request`. The list
    /// must hold exactly one student with exactly one link.
    pub fn id(&self, reply: Reply<Students>) -> (id: Res<usize>)
        ensures
            id == spec_id(reply),
    {
        let students = reply.accept(Endpoint::Students)?;
        if students.items.len() != 1 {
            return Err(Error::UnexpectedShape);
        }
        let student = &students.items[0];
        if student.links.len() != 1 {
            return Err(Error::UnexpectedShape);
        }
        Ok(student.links[0].id)
    }

    /// The request for the subjects.
    pub fn subjects_request(&self) -> (request: Request)
        ensures
            request@ == bearer_get(
                Endpoint::Subjects.spec_url(),
                self.data.access_token@,
                Seq::empty(),
                Seq::empty(),
            ),
    {
        Request::get(Endpoint::Subjects.url(), self.data.access_token.as_str())
    }

    /// The subjects from the reply to `subjects_request`, as the service
    /// listed them.
    pub fn subjects(&self, reply: Reply<Subjects>) -> (subjects: Res<Subjects>)
        ensures
            subjects == accepted(Endpoint::Subjects, reply),
    {
        reply.accept(Endpoint::Subjects)
    }

    /// The request for the page of grades of `student` that starts at
    /// `offset`.
    pub fn grades_request(&self, student: usize, offset: usize) -> (request: Request)
        ensures
            request@ == bearer_get(
                spec_grades_url(student as nat),
                self.data.access_token@,
                seq![("Range"@, spec_range(offset as nat))],
                Seq::empty(),
            ),
    {
        let mut url = Endpoint::Grades.url();
        push_decimal(&mut url, student as u128);
        let mut range = String::from_str("items=");
        push_decimal(&mut range, offset as u128);
        range.append("-");
        push_decimal(&mut range, offset as u128 + (PAGE_SIZE as u128 - 1));
        let request = Request::get(url, self.data.access_token.as_str()).header("Range", range);
        assert(request@.headers =~= bearer_get(
            spec_grades_url(student as nat),
            self.data.access_token@,
            seq![("Range"@, spec_range(offset as nat))],
            Seq::empty(),
        ).headers);
        request
    }

    /// The grades by subject: `subjects` as `subjects` gave them, `grades` as
    /// the paging collected them. A grade for a subject that is not listed
    /// fails the call.
    pub fn grades(&self, subjects: &Subjects, grades: Grades) -> (sorted: Res<SubjectGrades>)
        ensures
            sorted is Ok <==> all_listed(subjects.items@, grades.items@),
            sorted matches Ok(by_subject) ==> {
                &&& by_subject@.dom() == spec_acronyms(subjects.items@)
                &&& forall|k: Seq<char>| #[trigger]
                    by_subject@.dom().contains(k) ==> by_subject@[k] == graded_as(
                        grades.items@,
                        k,
                    )
            },
            sorted matches Err(e) ==> e == Error::UnexpectedShape,
    {
        SubjectGrades::group(subjects, grades)
    }

    /// The request for the appointments from `begin` to `end`.
    pub fn schedule_request(&self, begin: Date, end: Date) -> (request: Request)
        ensures
            request@ == bearer_get(
                Endpoint::Schedule.spec_url(),
                self.data.access_token@,
                Seq::empty(),
                seq![
                    ("begindatum"@, iso_date(begin.ymd().0, begin.ymd().1, begin.ymd().2)),
                    ("einddatum"@, iso_date(end.ymd().0, end.ymd().1, end.ymd().2)),
                ],
            ),
    {
        let request = Request::get(
            Endpoint::Schedule.url(),
            self.data.access_token.as_str(),
        ).param("begindatum", begin.format()).param("einddatum", end.format());
        assert(request@.query =~= seq![
            ("begindatum"@, iso_date(begin.ymd().0, begin.ymd().1, begin.ymd().2)),
            ("einddatum"@, iso_date(end.ymd().0, end.ymd().1, end.ymd().2)),
        ]);
        request
    }

    /// The appointments from the reply to `schedule_request`, as the service
    /// listed them.
    pub fn schedule(&self, reply: Reply<Schedule>) -> (schedule: Res<Schedule>)
        ensures
            schedule == accepted(Endpoint::Schedule, reply),
    {
        reply.accept(Endpoint::Schedule)
    }

    /// The request for the homework set for appointments from `begin` on.
    pub fn homework_appointments_request(&self, begin: Date) -> (request: Request)
        ensures
            request@ == spec_homework_request(
                Endpoint::HomeworkAppointments,
                self.data.access_token@,
                begin,
            ),
    {
        homework_request(Endpoint::HomeworkAppointments, self.data.access_token.as_str(), begin)
    }

    /// The homework from the reply to `homework_appointments_request` that
    /// falls before `end`. The service filters by the beginning only, so the
    /// end is applied here; the day `end` itself is left out.
    pub fn homework_appointments(&self, reply: Reply<MultHomework>, end: Date) -> (homework: Res<
        MultHomework,
    >)
        ensures
            homework_before(Endpoint::HomeworkAppointments, reply, end, homework),
    {
        self::homework(Endpoint::HomeworkAppointments, reply, end)
    }

    /// The request for the homework set for days from `begin` on.
    pub fn homework_days_request(&self, begin: Date) -> (request: Request)
        ensures
            request@ == spec_homework_request(
                Endpoint::HomeworkDays,
                self.data.access_token@,
                begin,
            ),
    {
        homework_request(Endpoint::HomeworkDays, self.data.access_token.as_str(), begin)
    }

    /// The homework from the reply to `homework_days_request` that falls
    /// before `end`; the day `end` itself is left out.
    pub fn homework_days(&self, reply: Reply<MultHomework>, end: Date) -> (homework: Res<
        MultHomework,
    >)
        ensures
            homework_before(Endpoint::HomeworkDays, reply, end, homework),
    {
        self::homework(Endpoint::HomeworkDays, reply, end)
    }
}

} // verus!
