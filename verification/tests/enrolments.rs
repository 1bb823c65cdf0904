use coursework::enrolments::{least_common_course, most_common_course, summarize, Enrolment};

fn e(course: &str, student: &str) -> Enrolment {
    Enrolment { course_code: course.to_string(), student_number: student.to_string() }
}

#[test]
fn counts_courses_and_distinct_students() {
    let list = vec![
        e("COMP1511", "z1"),
        e("COMP6991", "z2"),
        e("COMP1511", "z3"),
        e("COMP1511", "z1"),
        e("MATH1131", "z2"),
    ];
    let s = summarize(&list);
    let mut pairs: Vec<(String, i32)> = s.course_codes.iter().cloned().zip(s.course_sizes.iter().cloned()).collect();
    pairs.sort();
    assert_eq!(
        pairs,
        vec![("COMP1511".to_string(), 3), ("COMP6991".to_string(), 1), ("MATH1131".to_string(), 1)]
    );
    assert_eq!(s.first_enrolments, vec![0, 1, 2]);
    assert_eq!(s.course_sizes.iter().sum::<i32>(), 5);
    let most = most_common_course(&s.course_sizes).unwrap();
    assert_eq!(s.course_codes[most], "COMP1511");
    let least = least_common_course(&s.course_sizes).unwrap();
    assert_eq!(s.course_sizes[least], 1);
}

#[test]
fn no_enrolments_no_courses() {
    let s = summarize(&vec![]);
    assert!(s.course_codes.is_empty());
    assert!(s.first_enrolments.is_empty());
    assert_eq!(most_common_course(&s.course_sizes), None);
    assert_eq!(least_common_course(&s.course_sizes), None);
}

#[test]
fn ties_pick_the_first_position() {
    assert_eq!(most_common_course(&vec![2, 5, 5, 1]), Some(1));
    assert_eq!(least_common_course(&vec![2, 1, 5, 1]), Some(1));
}
