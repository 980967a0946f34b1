use vstd::prelude::*;

verus! {

#[derive(Clone, Copy, Debug, PartialEq, Eq, Structural)]
pub enum ShutdownError {
    /// A service of that name is registered already.
    DuplicateService,
    /// Shutdown has begun: no more services are accepted.
    Terminating,
}

/// The services that take part in graceful shutdown, by name, in order of
/// registration.
pub struct ShutdownService {
    service_names: Vec<String>,
    terminating: bool,
}

impl ShutdownService {
    pub closed spec fn names_spec(&self) -> Seq<Seq<char>> {
        self.service_names@.map_values(|s: String| s@)
    }

    pub closed spec fn is_terminating_spec(&self) -> bool {
        self.terminating
    }

    pub fn new() -> (r: Self)
        ensures
            r.names_spec().len() == 0,
            !r.is_terminating_spec(),
    {
        let r = ShutdownService { service_names: Vec::new(), terminating: false };
        assert(r.names_spec() =~= Seq::empty());
        r
    }

    pub fn is_terminating(&self) -> (r: bool)
        ensures
            r == self.is_terminating_spec(),
    {
        self.terminating
    }

    pub fn service_count(&self) -> (r: usize)
        ensures
            r == self.names_spec().len(),
    {
        self.service_names.len()
    }

    /// Adds a service while shutdown has not begun and its name is new.
    pub fn register(&mut self, name: String) -> (r: Result<(), ShutdownError>)
        ensures
            final(self).is_terminating_spec() == old(self).is_terminating_spec(),
            r == if old(self).is_terminating_spec() {
                Err::<(), ShutdownError>(ShutdownError::Terminating)
            } else if old(self).names_spec().contains(name@) {
                Err(ShutdownError::DuplicateService)
            } else {
                Ok(())
            },
            final(self).names_spec() == if r is Ok {
                old(self).names_spec().push(name@)
            } else {
                old(self).names_spec()
            },
    {
        if self.terminating {
            return Err(ShutdownError::Terminating);
        }
        let mut i: usize = 0;
        while i < self.service_names.len()
            invariant
                0 <= i <= self.service_names@.len(),
                self.names_spec().len() == self.service_names@.len(),
                self.names_spec() == old(self).names_spec(),
                self.terminating == old(self).terminating,
                !old(self).terminating,
                forall|k: int| 0 <= k < i ==> #[trigger] self.names_spec()[k] != name@,
            decreases self.service_names@.len() - i,
        {
            if self.service_names[i] == name {
                assert(self.names_spec()[i as int] == name@);
                return Err(ShutdownError::DuplicateService);
            }
            i = i + 1;
        }
        let ghost before = self.names_spec();
        self.service_names.push(name);
        assert(self.names_spec() =~= before.push(name@));
        Ok(())
    }

    /// Shutdown begins: registration closes; the services are kept.
    pub fn begin_graceful_shutdown(&mut self)
        ensures
            final(self).is_terminating_spec(),
            final(self).names_spec() == old(self).names_spec(),
    {
        self.terminating = true;
    }
}

} // verus!
