//! A small roster of people and their jobs, the data of the engine demo.
use vstd::prelude::*;

verus! {

#[derive(Clone, Copy, Debug, PartialEq, Eq, Structural)]
pub enum Job {
    Doctor,
    FireFighter,
    Lawyer,
}

#[derive(Debug)]
pub struct Person {
    pub name: String,
    pub job: Option<Job>,
}

/// How a job is written out.
pub open spec fn job_title_spec(job: Job) -> Seq<char> {
    match job {
        Job::Doctor => seq!['D', 'o', 'c', 't', 'o', 'r'],
        Job::FireFighter => seq!['F', 'i', 'r', 'e', ' ', 'F', 'i', 'g', 'h', 't', 'e', 'r'],
        Job::Lawyer => seq!['L', 'a', 'w', 'y', 'e', 'r'],
    }
}

pub fn job_title(job: Job) -> (r: &'static str)
    ensures
        r@ == job_title_spec(job),
{
    proof {
        reveal_strlit("Doctor");
        reveal_strlit("Fire Fighter");
        reveal_strlit("Lawyer");
    }
    match job {
        Job::Doctor => {
            assert("Doctor"@ =~= job_title_spec(job));
            "Doctor"
        },
        Job::FireFighter => {
            assert("Fire Fighter"@ =~= job_title_spec(job));
            "Fire Fighter"
        },
        Job::Lawyer => {
            assert("Lawyer"@ =~= job_title_spec(job));
            "Lawyer"
        },
    }
}

fn person(name: &str, job: Option<Job>) -> (r: Person)
    ensures
        r.name@ == name@,
        r.job == job,
{
    Person { name: name.to_owned(), job }
}

/// The people the demo starts with: Alex the doctor, Bob without a job,
/// Charlie the fire fighter, David the lawyer and Ellen the fire fighter.
pub fn setup() -> (r: Vec<Person>)
    ensures
        r@.len() == 5,
        r@[0].job == Some(Job::Doctor),
        r@[1].job is None,
        r@[2].job == Some(Job::FireFighter),
        r@[3].job == Some(Job::Lawyer),
        r@[4].job == Some(Job::FireFighter),
        r@[0].name@ == "Alex"@,
        r@[1].name@ == "Bob"@,
        r@[2].name@ == "Charlie"@,
        r@[3].name@ == "David"@,
        r@[4].name@ == "Ellen"@,
{
    let mut v: Vec<Person> = Vec::new();
    v.push(person("Alex", Some(Job::Doctor)));
    v.push(person("Bob", None));
    v.push(person("Charlie", Some(Job::FireFighter)));
    v.push(person("David", Some(Job::Lawyer)));
    v.push(person("Ellen", Some(Job::FireFighter)));
    v
}

/// Whether a person's employment is `employed`.
pub open spec fn employment_is(employed: bool) -> spec_fn(Person) -> bool {
    |p: Person| (p.job is Some) == employed
}

/// The people with a job (`employed`) or without one, in roster order.
pub fn people_by_employment(people: &Vec<Person>, employed: bool) -> (r: Vec<Person>)
    ensures
        r@ == people@.filter(employment_is(employed)),
{
    let mut r: Vec<Person> = Vec::new();
    let mut i: usize = 0;
    while i < people.len()
        invariant
            i <= people@.len(),
            r@ == people@.subrange(0, i as int).filter(employment_is(employed)),
        decreases people@.len() - i,
    {
        proof {
            reveal(Seq::filter);
            let b = people@.subrange(0, i + 1);
            assert(b.drop_last() =~= people@.subrange(0, i as int));
            assert(b.last() == people@[i as int]);
            assert(b.filter(employment_is(employed)) == if employment_is(employed)(b.last()) {
                b.drop_last().filter(employment_is(employed)).push(b.last())
            } else {
                b.drop_last().filter(employment_is(employed))
            });
        }
        let p = &people[i];
        if p.job.is_some() == employed {
            let q = Person { name: p.name.clone(), job: p.job };
            assert(q == people@[i as int]);
            r.push(q);
        }
        i = i + 1;
    }
    assert(people@.subrange(0, i as int) =~= people@);
    r
}

} // verus!
