use vstd::prelude::*;

verus! {

/// A named resource, like a style.
pub trait Resource: Default {
    /// The name of the resource.
    spec fn spec_name(&self) -> Seq<char>;

    /// Returns the name of the resource.
    fn get_name(&self) -> (r: &str)
        ensures
            r@ == self.spec_name(),
    ;
}

/// The index of the first resource with a name, if any has it.
pub open spec fn first_with_name<T: Resource>(resources: Seq<T>, name: Seq<char>) -> Option<
    usize,
> {
    if exists|i: int| 0 <= i < resources.len() && #[trigger] resources[i].spec_name() == name {
        let i = choose|i: int|
            {
                &&& 0 <= i < resources.len()
                &&& #[trigger] resources[i].spec_name() == name
                &&& forall|j: int| 0 <= j < i ==> resources[j].spec_name() != name
            };
        Some(i as usize)
    } else {
        None
    }
}

/// Holds the resources of one type, each identified by its index, and a
/// default that stands in for an unknown index.
#[derive(Debug)]
pub struct ResourceManager<T: Resource> {
    default: T,
    resources: Vec<T>,
}

impl<T: Resource> ResourceManager<T> {
    /// The resources by index.
    pub closed spec fn spec_resources(&self) -> Seq<T> {
        self.resources@
    }

    /// The resource that stands in for an unknown index.
    pub closed spec fn spec_default(&self) -> T {
        self.default
    }

    /// The resource that an index stands for.
    pub open spec fn spec_get(&self, id: int) -> T {
        if 0 <= id < self.spec_resources().len() {
            self.spec_resources()[id]
        } else {
            self.spec_default()
        }
    }

    pub fn new(resources: Vec<T>, default: T) -> (r: ResourceManager<T>)
        ensures
            r.spec_resources() == resources@,
            r.spec_default() == default,
    {
        ResourceManager { default, resources }
    }

    /// Returns a manager whose default is the default of the resource type.
    pub fn with_default(resources: Vec<T>) -> (r: ResourceManager<T>)
        ensures
            r.spec_resources() == resources@,
            call_ensures(T::default, (), r.spec_default()),
    {
        ResourceManager { default: T::default(), resources }
    }

    pub fn is_empty(&self) -> (r: bool)
        ensures
            r == (self.spec_resources().len() == 0),
    {
        self.resources.len() == 0
    }

    pub fn len(&self) -> (r: usize)
        ensures
            r == self.spec_resources().len(),
    {
        self.resources.len()
    }

    /// Returns the resource with the index, or the default for an unknown index.
    pub fn get(&self, id: usize) -> (r: &T)
        ensures
            *r == self.spec_get(id as int),
    {
        if id < self.resources.len() {
            &self.resources[id]
        } else {
            &self.default
        }
    }

    /// Returns the index of the first resource with the name.
    pub fn get_id(&self, name: &str) -> (r: Option<usize>)
        ensures
            r == first_with_name(self.spec_resources(), name@),
    {
        let mut i: usize = 0;
        while i < self.resources.len()
            invariant
                i <= self.resources@.len(),
                forall|j: int| 0 <= j < i ==> self.resources@[j].spec_name() != name@,
            decreases self.resources@.len() - i,
        {
            if str_equal(self.resources[i].get_name(), name) {
                proof {
                    let resources = self.resources@;
                    assert(0 <= i < resources.len() && resources[i as int].spec_name()
                        == name@);
                    let k = choose|k: int|
                        {
                            &&& 0 <= k < resources.len()
                            &&& #[trigger] resources[k].spec_name() == name@
                            &&& forall|j: int| 0 <= j < k ==> resources[j].spec_name() != name@
                        };
                    assert(k == i) by {
                        if k < i {
                        } else if k > i {
                            assert(resources[i as int].spec_name() != name@);
                        }
                    }
                }
                return Some(i);
            }
            i = i + 1;
        }
        None
    }

    /// Returns the names of all resources in the order of their indices.
    pub fn get_names(&self) -> (r: Vec<&str>)
        ensures
            r@.len() == self.spec_resources().len(),
            forall|i: int|
                0 <= i < r@.len() ==> r@[i]@ == #[trigger] self.spec_resources()[i].spec_name(),
    {
        let mut names: Vec<&str> = Vec::new();
        let mut i: usize = 0;
        while i < self.resources.len()
            invariant
                i <= self.resources@.len(),
                names@.len() == i,
                forall|j: int|
                    0 <= j < i ==> names@[j]@ == #[trigger] self.resources@[j].spec_name(),
            decreases self.resources@.len() - i,
        {
            names.push(self.resources[i].get_name());
            i = i + 1;
        }
        names
    }
}

/// Compares 2 texts character by character.
fn str_equal(a: &str, b: &str) -> (r: bool)
    ensures
        r == (a@ == b@),
{
    let n = a.unicode_len();
    if n != b.unicode_len() {
        return false;
    }
    let mut i: usize = 0;
    while i < n
        invariant
            n == a@.len(),
            n == b@.len(),
            i <= n,
            a@.subrange(0, i as int) == b@.subrange(0, i as int),
        decreases n - i,
    {
        if a.get_char(i) != b.get_char(i) {
            return false;
        }
        assert(a@.subrange(0, i + 1) =~= a@.subrange(0, i as int).push(a@[i as int]));
        assert(b@.subrange(0, i + 1) =~= b@.subrange(0, i as int).push(b@[i as int]));
        i = i + 1;
    }
    assert(a@ =~= a@.subrange(0, n as int));
    assert(b@ =~= b@.subrange(0, n as int));
    true
}

} // verus!
