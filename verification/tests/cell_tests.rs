use sc::Locker;
use sc::Sc;

#[test]
fn it_works() {
    let mut sc = Sc::new();
    assert!(sc.is_none());
    {
        let s = String::from("foo");
        {
            let mut locker = Locker::new();
            assert!(locker.lock(s.clone(), &mut sc).is_ok());
            assert!(!sc.is_none());
            let back = locker.release(&mut sc);
            assert_eq!(back, s);
        }
        assert!(sc.is_none());
        {
            let mut locker = Locker::new();
            assert!(locker.lock(s.clone(), &mut sc).is_ok());
            assert!(!sc.is_none());
            let back = locker.release(&mut sc);
            assert_eq!(back, s);
        }
        assert!(sc.is_none());
    }
    assert!(sc.is_none());
}

#[test]
fn fresh_cell_is_unbound() {
    let sc: Sc<String> = Sc::new();
    assert!(sc.is_none());
    assert!(!sc.is_some());
    assert_eq!(sc.map(|x: &String| x.clone()), None);
}

#[test]
fn bound_cell_reads_back_its_value() {
    let mut sc = Sc::new();
    let mut locker = Locker::new();
    assert!(locker.lock(String::from("foo"), &mut sc).is_ok());
    assert!(sc.is_some());
    assert_eq!(sc.map(|x: &String| x.clone()), Some(String::from("foo")));
    assert_eq!(sc.map(|x: &String| x.len()), Some(3));
    assert_eq!(
        sc.map(|x: &String| x.clone() + "bar"),
        Some(String::from("foobar"))
    );
    locker.release(&mut sc);
}

#[test]
fn released_cell_reads_absent() {
    let mut sc = Sc::new();
    let mut locker = Locker::new();
    assert!(locker.lock(String::from("foo"), &mut sc).is_ok());
    let back = locker.release(&mut sc);
    assert_eq!(back, String::from("foo"));
    assert!(!sc.is_some());
    assert!(sc.is_none());
    assert_eq!(sc.map(|x: &String| x.clone()), None);
    assert_eq!(sc.map(|x: &String| x.len()), None);
}

#[test]
fn rebind_behaves_like_first_bind() {
    let mut sc = Sc::new();
    let mut first = Locker::new();
    assert!(first.lock(String::from("foo"), &mut sc).is_ok());
    first.release(&mut sc);
    assert!(sc.is_none());
    let mut second = Locker::new();
    assert!(second.lock(String::from("quux"), &mut sc).is_ok());
    assert!(sc.is_some());
    assert_eq!(sc.map(|x: &String| x.clone()), Some(String::from("quux")));
    let back = second.release(&mut sc);
    assert_eq!(back, String::from("quux"));
    assert!(sc.is_none());
}

#[test]
fn binding_a_bound_cell_is_rejected() {
    let mut sc = Sc::new();
    let mut first = Locker::new();
    assert!(first.lock(String::from("foo"), &mut sc).is_ok());
    let mut second = Locker::new();
    let rejected = second.lock(String::from("late"), &mut sc);
    assert_eq!(rejected, Err(String::from("late")));
    // The earlier binding is untouched by the rejected attempt.
    assert_eq!(sc.map(|x: &String| x.clone()), Some(String::from("foo")));
    first.release(&mut sc);
}

#[test]
fn an_engaged_guard_cannot_lock_again() {
    let mut a: Sc<String> = Sc::new();
    let mut b: Sc<String> = Sc::new();
    let mut locker = Locker::new();
    assert!(locker.lock(String::from("foo"), &mut a).is_ok());
    let rejected = locker.lock(String::from("other"), &mut b);
    assert_eq!(rejected, Err(String::from("other")));
    assert!(b.is_none());
    locker.release(&mut a);
}
