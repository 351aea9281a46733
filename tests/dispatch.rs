use std::cell::Cell;
use std::rc::Rc;

use rpccaps::dispatch::Dispatch;
use rpccaps::{Error, ErrorKind};

type Func = Box<dyn Fn((i64, i64))>;

struct TestDispatch {
    result: Rc<Cell<i64>>,
    dispatch: Dispatch<String, Func>,
}

impl TestDispatch {
    fn new(max_count: Option<u32>) -> Self {
        let mut dispatch: Dispatch<String, Func> = Dispatch::new(max_count);
        let result = Rc::new(Cell::new(0i64));

        let res = result.clone();
        dispatch.add("add".to_string(), Box::new(move |(a, b)| res.set(a + b)), false).unwrap();
        let res = result.clone();
        dispatch.add("sub".to_string(), Box::new(move |(a, b)| res.set(a - b)), false).unwrap();
        let res = result.clone();
        dispatch.add("add_once".to_string(), Box::new(move |(a, b)| res.set(a + b)), true).unwrap();

        Self { result, dispatch }
    }

    fn result(&self) -> i64 {
        self.result.get()
    }

    fn dispatch(&mut self, id: &str, data: (i64, i64)) -> Result<(), Error> {
        let id = id.to_string();
        let once = self.dispatch.acquire(&id)?;
        match self.dispatch.handler(&id) {
            Some(func) => func(data),
            None => unreachable!(),
        }
        self.dispatch.release(&id, once);
        Ok(())
    }
}

#[test]
fn test_dispatch() {
    let mut test = TestDispatch::new(None);
    test.dispatch("add", (2, 3)).unwrap();
    assert_eq!(test.result(), 5);

    test.dispatch("sub", (3, 1)).unwrap();
    assert_eq!(test.result(), 2);
}

#[test]
fn test_dispatch_once() {
    let mut test = TestDispatch::new(None);
    test.dispatch("add_once", (2, 3)).unwrap();
    assert_eq!(test.result(), 5);
    assert_eq!(test.dispatch("add_once", (2, 3)).unwrap_err().kind(), ErrorKind::NotFound);
}

#[test]
fn adding_a_taken_id_is_refused() {
    let mut test = TestDispatch::new(None);
    let err = test.dispatch.add("add".to_string(), Box::new(|_| ()), true).unwrap_err();
    assert_eq!(err.kind(), ErrorKind::AlreadyExists);
    test.dispatch("add", (1, 1)).unwrap();
    test.dispatch("add", (1, 2)).unwrap();
    assert_eq!(test.result(), 3);
}

#[test]
fn removing_an_absent_handler_changes_nothing() {
    let mut test = TestDispatch::new(None);
    test.dispatch.remove(&"missing".to_string());
    test.dispatch.remove(&"missing".to_string());
    assert!(test.dispatch.contains(&"add".to_string()));
    assert!(test.dispatch.contains(&"sub".to_string()));
    assert!(test.dispatch.contains(&"add_once".to_string()));
    test.dispatch.remove(&"sub".to_string());
    assert!(!test.dispatch.contains(&"sub".to_string()));
    assert_eq!(test.dispatch("sub", (1, 1)).unwrap_err().kind(), ErrorKind::NotFound);
}

#[test]
fn limit_counts_invocations_under_way() {
    let mut d: Dispatch<u64, u8> = Dispatch::new(Some(2));
    d.add(1, 10, false).unwrap();
    d.add(2, 20, true).unwrap();
    assert_eq!(d.acquire(&1), Ok(false));
    assert_eq!(d.acquire(&2), Ok(true));
    assert_eq!(d.active_count(), 2);
    assert_eq!(d.acquire(&1).unwrap_err().kind(), ErrorKind::LimitReached);
    assert_eq!(d.handler(&2), Some(&20));
    d.release(&2, true);
    assert_eq!(d.active_count(), 1);
    assert_eq!(d.handler(&2), None);
    assert_eq!(d.acquire(&3).unwrap_err().kind(), ErrorKind::NotFound);
    assert_eq!(d.active_count(), 1);
    assert_eq!(d.max_count(), Some(2));
}
