use vstd::prelude::*;

verus! {

/// The settings the compiler driver reads from its command line, borrowed
/// from the parsed arguments.
pub struct Config<'ctx> {
    pub input: &'ctx str,
    pub name: Option<&'ctx str>,
    pub type_: Option<&'ctx str>,
    pub output: Option<&'ctx str>,
    pub out_dir: Option<&'ctx str>,
    pub paths: Vec<String>,
    pub l: Option<&'ctx str>,
}

impl<'ctx> Config<'ctx> {
    /// The input file.
    pub fn input(&self) -> (r: &str)
        ensures
            r@ == self.input@,
    {
        self.input
    }

    pub fn output(&self) -> (r: Option<&'ctx str>)
        ensures
            r == self.output,
    {
        self.output
    }

    pub fn out_dir(&self) -> (r: Option<&'ctx str>)
        ensures
            r == self.out_dir,
    {
        self.out_dir
    }

    /// The library search paths.
    pub fn paths(&self) -> (r: Vec<String>)
        ensures
            r@ == self.paths@,
    {
        let mut r: Vec<String> = Vec::new();
        let mut i: usize = 0;
        while i < self.paths.len()
            invariant
                i <= self.paths@.len(),
                r@ == self.paths@.take(i as int),
            decreases self.paths@.len() - i,
        {
            r.push(self.paths[i].clone());
            assert(self.paths@.take(i + 1) =~= self.paths@.take(i as int).push(self.paths@[i as int]));
            i = i + 1;
        }
        assert(self.paths@.take(self.paths@.len() as int) =~= self.paths@);
        r
    }
}

} // verus!
