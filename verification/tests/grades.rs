use sompp_tools::date::{Date, Timestamp};
use sompp_tools::grades::{Bucket, GradePages, SubjectGrades};
use sompp_tools::http::{Endpoint, Field, Method, Reply, Request};
use sompp_tools::types::{
    Appointment, Grade, Grades, Homework, LessonGroup, Link, MultHomework, Schedule, Student,
    Students, StudiewijzerItem, Subject, Subjects, User, UserData,
};
use sompp_tools::Error;

fn user() -> User {
    User {
        data: UserData {
            access_token: String::from("t0ken"),
            refresh_token: String::new(),
            somtoday_api_url: String::new(),
            somtoday_oop_url: String::new(),
            id_token: String::new(),
        },
    }
}

fn field(name: &str, value: &str) -> Field {
    Field {
        name: String::from(name),
        value: String::from(value),
    }
}

fn bearer() -> Vec<Field> {
    vec![
        field("Authorization", "Bearer t0ken"),
        field("Accept", "application/json"),
    ]
}

fn subject(acronym: &str) -> Subject {
    Subject {
        name: format!("subject {}", acronym),
        acronym: String::from(acronym),
    }
}

fn grade(acronym: &str, result: &str) -> Grade {
    Grade {
        result: Some(String::from(result)),
        description: None,
        ty: String::from("Toetskolom"),
        subject: subject(acronym),
    }
}

fn page(from: usize, size: usize) -> Grades {
    Grades {
        items: (from..from + size).map(|n| grade("WIS", &n.to_string())).collect(),
    }
}

fn ok<T>(body: T) -> Reply<T> {
    Reply::Status {
        status: 200,
        body: Some(body),
    }
}

fn students(links: &[usize]) -> Student {
    Student {
        links: links.iter().map(|id| Link { id: *id }).collect(),
    }
}

fn homework(topic: &str, year: i32, month: u32, day: u32, second_of_day: u32) -> Homework {
    Homework {
        studiewijzer_item: StudiewijzerItem {
            topic: String::from(topic),
            description: String::new(),
        },
        lesson_group: LessonGroup {
            subject: subject("WIS"),
        },
        date_time: Timestamp {
            date: Date::new(year, month, day).unwrap(),
            second_of_day,
            nanosecond: 0,
        },
    }
}

fn topics(found: &MultHomework) -> Vec<String> {
    found
        .items
        .iter()
        .map(|h| h.studiewijzer_item.topic.clone())
        .collect()
}

fn run_pages(sizes: &[usize]) -> (Vec<usize>, Vec<String>, Option<Grades>) {
    let user = user();
    let mut pages = GradePages::new();
    let mut offsets = Vec::new();
    let mut ranges = Vec::new();
    let mut served = 0;
    while let Some(offset) = pages.next_offset() {
        let request = user.grades_request(42, offset);
        ranges.push(request.headers[2].value.clone());
        offsets.push(offset);
        let size = sizes[served];
        served += 1;
        let next = pages.accept(ok(page(offset, size))).unwrap();
        assert_eq!(next, pages.next_offset());
    }
    (offsets, ranges, pages.into_grades())
}

#[test]
fn three_pages_the_last_one_short() {
    let (offsets, ranges, grades) = run_pages(&[100, 100, 37]);
    assert_eq!(offsets, vec![0, 100, 200]);
    assert_eq!(ranges, vec!["items=0-99", "items=100-199", "items=200-299"]);
    let grades = grades.unwrap();
    assert_eq!(grades.items.len(), 237);
    for (n, grade) in grades.items.iter().enumerate() {
        assert_eq!(grade.result, Some(n.to_string()));
    }
}

#[test]
fn a_full_page_is_never_the_last() {
    let (offsets, _, grades) = run_pages(&[100, 100, 100, 0]);
    assert_eq!(offsets, vec![0, 100, 200, 300]);
    assert_eq!(grades.unwrap().items.len(), 300);
    let (offsets, _, grades) = run_pages(&[100, 0]);
    assert_eq!(offsets, vec![0, 100]);
    assert_eq!(grades.unwrap().items.len(), 100);
}

#[test]
fn a_short_first_page_is_the_only_one() {
    let (offsets, _, grades) = run_pages(&[99]);
    assert_eq!(offsets, vec![0]);
    assert_eq!(grades.unwrap().items.len(), 99);
    let (offsets, _, grades) = run_pages(&[0]);
    assert_eq!(offsets, vec![0]);
    assert_eq!(grades.unwrap().items.len(), 0);
}

#[test]
fn a_page_of_more_than_a_hundred_moves_on_by_a_hundred() {
    let (offsets, _, grades) = run_pages(&[150, 20]);
    assert_eq!(offsets, vec![0, 100]);
    assert_eq!(grades.unwrap().items.len(), 170);
}

#[test]
fn paging_starts_at_zero_and_has_nothing_before_the_end() {
    let pages = GradePages::new();
    assert_eq!(pages.next_offset(), Some(0));
    assert_eq!(pages.into_grades(), None);
    let mut pages = GradePages::new();
    assert_eq!(pages.accept(ok(page(0, 100))), Ok(Some(100)));
    assert_eq!(pages.into_grades(), None);
}

#[test]
fn a_failed_page_fails_the_paging_and_changes_nothing() {
    let mut pages = GradePages::new();
    assert_eq!(pages.accept(ok(page(0, 100))), Ok(Some(100)));
    assert_eq!(
        pages.accept(Reply::Status { status: 503, body: None }),
        Err(Error::Api { endpoint: Endpoint::Grades, status: Some(503) })
    );
    assert_eq!(
        pages.accept(Reply::Unreachable),
        Err(Error::Api { endpoint: Endpoint::Grades, status: None })
    );
    assert_eq!(pages.next_offset(), Some(100));
    assert_eq!(pages.accept(ok(page(100, 5))), Ok(None));
    assert_eq!(pages.into_grades().unwrap().items.len(), 105);
}

#[test]
fn pages_after_the_last_are_ignored() {
    let mut pages = GradePages::new();
    assert_eq!(pages.accept(ok(page(0, 3))), Ok(None));
    assert_eq!(pages.accept(ok(page(3, 100))), Ok(None));
    assert_eq!(pages.next_offset(), None);
    assert_eq!(pages.into_grades().unwrap().items.len(), 3);
}

#[test]
fn grades_go_into_the_bucket_of_their_subject() {
    let subjects = Subjects { items: vec![subject("WIS"), subject("ENG")] };
    let g1 = grade("WIS", "7.5");
    let g2 = grade("WIS", "8.0");
    let g3 = grade("ENG", "6.1");
    let grades = Grades { items: vec![g1.clone(), g2.clone(), g3.clone()] };
    let sorted = user().grades(&subjects, grades).unwrap();
    assert_eq!(sorted.get("WIS"), Some(&vec![g1.clone(), g2.clone()]));
    assert_eq!(sorted.get("ENG"), Some(&vec![g3.clone()]));
    assert_eq!(sorted.get("XYZ"), None);
    assert_eq!(
        sorted.into_buckets(),
        vec![
            Bucket { acronym: String::from("WIS"), grades: vec![g1, g2] },
            Bucket { acronym: String::from("ENG"), grades: vec![g3] },
        ]
    );
}

#[test]
fn buckets_keep_the_order_in_which_grades_came() {
    let subjects = Subjects { items: vec![subject("A"), subject("B"), subject("C")] };
    let order = ["B", "A", "B", "B", "A", "B"];
    let items: Vec<Grade> = order
        .iter()
        .enumerate()
        .map(|(n, acronym)| grade(acronym, &n.to_string()))
        .collect();
    let sorted = SubjectGrades::group(&subjects, Grades { items: items.clone() }).unwrap();
    assert_eq!(sorted.get("A"), Some(&vec![items[1].clone(), items[4].clone()]));
    assert_eq!(
        sorted.get("B"),
        Some(&vec![
            items[0].clone(),
            items[2].clone(),
            items[3].clone(),
            items[5].clone()
        ])
    );
    assert_eq!(sorted.get("C"), Some(&Vec::new()));
    assert_eq!(sorted.get(""), None);
}

#[test]
fn a_grade_for_an_unlisted_subject_fails_the_sorting() {
    let subjects = Subjects { items: vec![subject("WIS"), subject("ENG")] };
    let grades = Grades {
        items: vec![grade("WIS", "7"), grade("XYZ", "3"), grade("ENG", "6")],
    };
    assert_eq!(user().grades(&subjects, grades).err(), Some(Error::UnexpectedShape));
    let none = Subjects { items: Vec::new() };
    let one = Grades { items: vec![grade("WIS", "7")] };
    assert_eq!(user().grades(&none, one).err(), Some(Error::UnexpectedShape));
}

#[test]
fn a_subject_listed_twice_has_one_bucket() {
    let subjects = Subjects {
        items: vec![subject("WIS"), subject("ENG"), subject("WIS")],
    };
    let grades = Grades { items: vec![grade("WIS", "7")] };
    let buckets = user().grades(&subjects, grades).unwrap().into_buckets();
    assert_eq!(buckets.len(), 2);
    assert_eq!(buckets[0].acronym, "WIS");
    assert_eq!(buckets[0].grades.len(), 1);
    assert_eq!(buckets[1].acronym, "ENG");
    assert_eq!(buckets[1].grades.len(), 0);
}

#[test]
fn no_subjects_and_no_grades_give_no_buckets() {
    let sorted = user()
        .grades(&Subjects { items: Vec::new() }, Grades { items: Vec::new() })
        .unwrap();
    assert_eq!(sorted.into_buckets(), Vec::new());
}

#[test]
fn the_one_student_with_the_one_link() {
    let reply = ok(Students { items: vec![students(&[4711])] });
    assert_eq!(user().id(reply), Ok(4711));
}

#[test]
fn any_other_number_of_students_is_an_unexpected_shape() {
    let none = ok(Students { items: Vec::new() });
    assert_eq!(user().id(none), Err(Error::UnexpectedShape));
    let two = ok(Students { items: vec![students(&[1]), students(&[2])] });
    assert_eq!(user().id(two), Err(Error::UnexpectedShape));
    let three = ok(Students {
        items: vec![students(&[1]), students(&[2]), students(&[3])],
    });
    assert_eq!(user().id(three), Err(Error::UnexpectedShape));
}

#[test]
fn any_other_number_of_links_is_an_unexpected_shape() {
    let none = ok(Students { items: vec![students(&[])] });
    assert_eq!(user().id(none), Err(Error::UnexpectedShape));
    let two = ok(Students { items: vec![students(&[1, 2])] });
    assert_eq!(user().id(two), Err(Error::UnexpectedShape));
    let both = ok(Students { items: vec![students(&[1, 2]), students(&[3])] });
    assert_eq!(user().id(both), Err(Error::UnexpectedShape));
}

#[test]
fn a_failed_reply_is_an_api_error_with_endpoint_and_status() {
    let body = Students { items: vec![students(&[1])] };
    for status in [0u16, 199, 300, 404, 500] {
        assert_eq!(
            user().id(Reply::Status { status, body: Some(body.clone()) }),
            Err(Error::Api { endpoint: Endpoint::Students, status: Some(status) })
        );
    }
    assert_eq!(
        user().id(Reply::Status { status: 200, body: None }),
        Err(Error::Api { endpoint: Endpoint::Students, status: Some(200) })
    );
    assert_eq!(
        user().id(Reply::Unreachable),
        Err(Error::Api { endpoint: Endpoint::Students, status: None })
    );
    assert_eq!(
        user().subjects(Reply::Status { status: 403, body: None }),
        Err(Error::Api { endpoint: Endpoint::Subjects, status: Some(403) })
    );
    assert_eq!(
        user().schedule(Reply::Unreachable),
        Err(Error::Api { endpoint: Endpoint::Schedule, status: None })
    );
    let end = Date::new(2023, 6, 17).unwrap();
    assert_eq!(
        user().homework_appointments(Reply::Status { status: 500, body: None }, end),
        Err(Error::Api { endpoint: Endpoint::HomeworkAppointments, status: Some(500) })
    );
    assert_eq!(
        user().homework_days(Reply::Status { status: 204, body: None }, end),
        Err(Error::Api { endpoint: Endpoint::HomeworkDays, status: Some(204) })
    );
}

#[test]
fn every_status_in_the_two_hundreds_is_taken() {
    for status in 200..=299u16 {
        let reply = Reply::Status { status, body: Some(7u8) };
        assert_eq!(reply.accept(Endpoint::Subjects), Ok(7));
    }
}

#[test]
fn subjects_and_schedule_come_back_as_listed() {
    let subjects = Subjects { items: vec![subject("ENG"), subject("WIS"), subject("ENG")] };
    assert_eq!(user().subjects(ok(subjects.clone())), Ok(subjects));
    let schedule = Schedule {
        items: vec![
            Appointment { title: String::from("b"), links: vec![Link { id: 2 }] },
            Appointment { title: String::from("a"), links: Vec::new() },
        ],
    };
    assert_eq!(user().schedule(ok(schedule.clone())), Ok(schedule));
}

#[test]
fn homework_on_the_end_day_is_left_out() {
    let found = MultHomework {
        items: vec![
            homework("sixteenth", 2023, 6, 16, 0),
            homework("seventeenth", 2023, 6, 17, 0),
        ],
    };
    let end = Date::new(2023, 6, 17).unwrap();
    let kept = user().homework_appointments(ok(found.clone()), end).unwrap();
    assert_eq!(topics(&kept), vec!["sixteenth"]);
    assert_eq!(kept.items[0], found.items[0]);
    let kept = user().homework_days(ok(found), end).unwrap();
    assert_eq!(topics(&kept), vec!["sixteenth"]);
}

#[test]
fn homework_keeps_its_order_and_goes_by_the_day_alone() {
    let found = MultHomework {
        items: vec![
            homework("late on the 16th", 2023, 6, 16, 86_399),
            homework("next year", 2024, 1, 1, 0),
            homework("early on the 17th", 2023, 6, 17, 0),
            homework("last year", 2022, 12, 31, 40_000),
            homework("next month", 2023, 7, 1, 0),
            homework("last month", 2023, 5, 31, 0),
        ],
    };
    let end = Date::new(2023, 6, 17).unwrap();
    let kept = user().homework_days(ok(found), end).unwrap();
    assert_eq!(topics(&kept), vec!["late on the 16th", "last year", "last month"]);
}

#[test]
fn request_for_the_student_list() {
    let request = user().id_request();
    assert_eq!(
        request,
        Request {
            method: Method::Get,
            url: String::from("https://api.somtoday.nl/rest/v1/leerlingen"),
            headers: bearer(),
            query: Vec::new(),
            form: Vec::new(),
        }
    );
}

#[test]
fn request_for_the_subjects() {
    let request = user().subjects_request();
    assert_eq!(request.method, Method::Get);
    assert_eq!(request.url, "https://api.somtoday.nl/rest/v1/vakken");
    assert_eq!(request.headers, bearer());
    assert!(request.query.is_empty() && request.form.is_empty());
}

#[test]
fn request_for_a_page_of_grades() {
    let request = user().grades_request(1234567, 300);
    assert_eq!(request.method, Method::Get);
    assert_eq!(
        request.url,
        "https://api.somtoday.nl/rest/v1/resultaten/huidigVoorLeerling/1234567"
    );
    let mut headers = bearer();
    headers.push(field("Range", "items=300-399"));
    assert_eq!(request.headers, headers);
    assert!(request.query.is_empty() && request.form.is_empty());
    let first = user().grades_request(0, 0);
    assert_eq!(first.headers[2], field("Range", "items=0-99"));
    assert!(first.url.ends_with("/huidigVoorLeerling/0"));
}

#[test]
fn request_for_the_schedule() {
    let begin = Date::new(2023, 6, 12).unwrap();
    let end = Date::new(2023, 6, 17).unwrap();
    let request = user().schedule_request(begin, end);
    assert_eq!(request.method, Method::Get);
    assert_eq!(request.url, "https://api.somtoday.nl/rest/v1/afspraken");
    assert_eq!(request.headers, bearer());
    assert_eq!(
        request.query,
        vec![field("begindatum", "2023-06-12"), field("einddatum", "2023-06-17")]
    );
    assert!(request.form.is_empty());
}

#[test]
fn requests_for_homework() {
    let begin = Date::new(2023, 1, 9).unwrap();
    let request = user().homework_appointments_request(begin);
    assert_eq!(
        request.url,
        "https://api.somtoday.nl/rest/v1/studiewijzeritemafspraaktoekenningen"
    );
    assert_eq!(request.headers, bearer());
    assert_eq!(request.query, vec![field("begintNaOfOp", "2023-01-09")]);
    let request = user().homework_days_request(begin);
    assert_eq!(
        request.url,
        "https://api.somtoday.nl/rest/v1/studiewijzeritemdagtoekenningen"
    );
    assert_eq!(request.method, Method::Get);
    assert_eq!(request.headers, bearer());
    assert_eq!(request.query, vec![field("begintNaOfOp", "2023-01-09")]);
}

#[test]
fn addresses_of_the_endpoints() {
    assert_eq!(Endpoint::Token.url(), "https://inloggen.somtoday.nl/oauth2/token");
    assert_eq!(Endpoint::Students.url(), "https://api.somtoday.nl/rest/v1/leerlingen");
    assert_eq!(
        Endpoint::Grades.url(),
        "https://api.somtoday.nl/rest/v1/resultaten/huidigVoorLeerling/"
    );
}

#[test]
fn headers_and_parameters_are_added_at_the_end() {
    let request = Request::get(String::from("https://example.test/"), "abc")
        .header("X-One", String::from("1"))
        .param("a", String::from("b"))
        .param("c", String::from("d"));
    assert_eq!(request.headers[0], field("Authorization", "Bearer abc"));
    assert_eq!(request.headers[2], field("X-One", "1"));
    assert_eq!(request.query, vec![field("a", "b"), field("c", "d")]);
    assert_eq!(Field::new("n", String::from("v")), Field::literal("n", "v"));
}
