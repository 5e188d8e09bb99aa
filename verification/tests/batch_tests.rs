use codechecker::batch::{case_number_of, case_numbers, sort_u32_vec, BatchRun};
use codechecker::ipc::{JudeRequest, JudgeResponse};
use codechecker::verdict::ProblemVerdict;

#[test]
fn all_accepted_reports_maxima_and_sentinel() {
    let mut b = BatchRun::new();
    assert!(!b.record(1, ProblemVerdict::Accepted { time: 120, memory: 4 }));
    assert!(!b.record(2, ProblemVerdict::Accepted { time: 80, memory: 9 }));
    assert!(!b.record(3, ProblemVerdict::Accepted { time: 100, memory: 2 }));
    let (v, case) = b.finish();
    assert_eq!(v, ProblemVerdict::Accepted { time: 120, memory: 9 });
    assert_eq!(case, 0);
}

#[test]
fn empty_batch_is_accepted_with_zeros() {
    let (v, case) = BatchRun::new().finish();
    assert_eq!(v, ProblemVerdict::Accepted { time: 0, memory: 0 });
    assert_eq!(case, 0);
}

#[test]
fn first_rejection_stops_the_batch_with_its_case_number() {
    let mut b = BatchRun::new();
    assert!(!b.record(1, ProblemVerdict::Accepted { time: 10, memory: 1 }));
    assert!(b.record(2, ProblemVerdict::TimeLimitExceeded));
    let (v, case) = b.finish();
    assert_eq!(v, ProblemVerdict::TimeLimitExceeded);
    assert_eq!(case, 2);
}

#[test]
fn wrong_answer_keeps_its_message_through_the_batch() {
    let mut b = BatchRun::new();
    assert!(b.record(
        7,
        ProblemVerdict::WrongAnswer { msg: String::from("Wrong answer in line 1") }
    ));
    let (v, case) = b.finish();
    assert_eq!(
        v,
        ProblemVerdict::WrongAnswer { msg: String::from("Wrong answer in line 1") }
    );
    assert_eq!(case, 7);
}

#[test]
fn case_number_parsing() {
    assert_eq!(case_number_of(&b"1.in".to_vec()), Some(1));
    assert_eq!(case_number_of(&b"10.in".to_vec()), Some(10));
    assert_eq!(case_number_of(&b"007.in".to_vec()), Some(7));
    assert_eq!(case_number_of(&b"4294967295.in".to_vec()), Some(u32::MAX));
    assert_eq!(case_number_of(&b"4294967296.in".to_vec()), None);
    assert_eq!(case_number_of(&b"x.in".to_vec()), None);
    assert_eq!(case_number_of(&b"5.out".to_vec()), None);
    assert_eq!(case_number_of(&b".in".to_vec()), None);
    assert_eq!(case_number_of(&b"in".to_vec()), None);
    assert_eq!(case_number_of(&b"3.in.bak".to_vec()), None);
}

#[test]
fn directory_names_become_sorted_case_numbers() {
    let names: Vec<Vec<u8>> = vec![
        b"10.in".to_vec(),
        b"2.out".to_vec(),
        b"2.in".to_vec(),
        b"readme.txt".to_vec(),
        b"1.in".to_vec(),
        b"x.in".to_vec(),
    ];
    assert_eq!(case_numbers(&names), vec![1, 2, 10]);
}

#[test]
fn sorting_keeps_the_numbers() {
    assert_eq!(sort_u32_vec(vec![3, 1, 2, 1]), vec![1, 1, 2, 3]);
    assert_eq!(sort_u32_vec(Vec::new()), Vec::<u32>::new());
}

#[test]
fn response_envelopes_populate_one_field() {
    let r = JudgeResponse::error("Can't open directory");
    assert!(!r.ok);
    assert_eq!(r.error, Some(String::from("Can't open directory")));
    assert_eq!(r.verdict, None);
    assert_eq!(r.test_case, None);

    let r = JudgeResponse::test_case(3);
    assert!(r.ok);
    assert_eq!(r.error, None);
    assert_eq!(r.verdict, None);
    assert_eq!(r.test_case, Some(3));

    let r = JudgeResponse::ok(ProblemVerdict::Accepted { time: 12, memory: 5 });
    assert!(r.ok);
    assert_eq!(r.error, None);
    assert_eq!(r.verdict, Some(ProblemVerdict::Accepted { time: 12, memory: 5 }));
    assert_eq!(r.test_case, None);
}

#[test]
fn request_carries_its_fields() {
    let q = JudeRequest {
        cmd: String::from("./solution"),
        cmd_options: None,
        time: 1000,
        memory: 128,
        test_dir: String::from("cases"),
    };
    assert_eq!(q.cmd, "./solution");
    assert_eq!(q.cmd_options, None);
    assert_eq!(q.time, 1000);
    assert_eq!(q.memory, 128);
    assert_eq!(q.test_dir, "cases");
}
