#![allow(dead_code, unused_imports)]

use rand::seq::index::sample as rand_sample;
use rand::{Rng, SeedableRng};
use rand_pcg::Pcg32;
use sparse_vector::util::{check_range, normalize_range};
use sparse_vector::{
    ElmReader, IndexBound, IntoIter, Iter, Order, RangeFault, SparseReader, SparseSlice,
    SparseSliceMut, SparseVec, SparseWriter, Splice, ValueEditor,
};
use std::cmp::Ordering;
use std::collections::BTreeSet;
use std::hash::{DefaultHasher, Hash, Hasher};
use std::ops::{Range, RangeInclusive};

const LEN: usize = 16;
const NNP: usize = 5;
const PADDING: i32 = -1;
const VALUE_RANGE: RangeInclusive<i32> = -99..=99;
const RANDOM_TEST_SIZE: usize = 64;
const SIDE_LEN: usize = 5;
const SIDE_VAL_RANGE: RangeInclusive<i32> = -2..=2;

/// The boundaries that divide `0..m` into `n + 1` intervals as equal as possible.
fn steps(m: usize, n: usize) -> Vec<usize> {
    assert!(n <= m);
    let mut ret = Vec::new();
    for i in 0..n {
        let width = m as f32 / (n + 1) as f32;
        ret.push((width * (i + 1) as f32).floor() as usize);
    }
    ret
}

/// The distances between the boundaries of `steps`.
fn step_diffs(m: usize, n: usize) -> Vec<usize> {
    let mut ret = Vec::new();
    let mut last = 0;
    for x in steps(m, n) {
        ret.push(x - last);
        last = x;
    }
    ret
}

fn rand_without(rng: &mut Pcg32, range: RangeInclusive<i32>, na: i32) -> i32 {
    let adjusted_range = *range.start()..=(*range.end() - 1);
    let trial = rng.random_range(adjusted_range);
    if trial != na {
        trial
    } else {
        *range.end()
    }
}

fn rand_values(rng: &mut Pcg32, range: RangeInclusive<i32>, n: usize) -> Vec<i32> {
    let mut ret = Vec::new();
    let len = rng.random_range(0..=n);
    for _ in 0..len {
        ret.push(rng.random_range(range.clone()));
    }
    ret
}

fn hash_of<T: Hash>(target: &T) -> u64 {
    let hasher = &mut DefaultHasher::new();
    target.hash(hasher);
    hasher.finish()
}

#[derive(Default)]
struct ValuesBuilder {
    seed: u64,
    len: Option<usize>,
    nnp: Option<usize>,
    padding: Option<i32>,
    value_range: Option<RangeInclusive<i32>>,
}

impl ValuesBuilder {
    fn new() -> Self {
        Self::default()
    }

    fn len(&self) -> usize {
        self.len.unwrap_or(LEN)
    }

    fn nnp(&self) -> usize {
        let default_ratio = NNP as f32 / LEN as f32;
        let nnp_len = (self.len() as f32 * default_ratio) as usize;
        self.nnp.unwrap_or(nnp_len)
    }

    fn padding(&self) -> i32 {
        self.padding.unwrap_or(PADDING)
    }

    fn none_padding(&self) -> i32 {
        self.padding().wrapping_sub(1)
    }

    fn value_range(&self) -> RangeInclusive<i32> {
        self.value_range.clone().unwrap_or(VALUE_RANGE)
    }

    fn values(&self) -> Vec<i32> {
        let mut ret = Vec::new();
        let rng = &mut Pcg32::seed_from_u64(self.seed);
        let indexs = self.npad_indexs();
        for index in 0..self.len() {
            let hit = indexs.contains(&index);
            let value = if hit {
                rand_without(rng, self.value_range(), self.padding())
            } else {
                self.padding()
            };
            ret.push(value);
        }
        ret
    }

    fn elms(&self) -> Vec<(usize, i32)> {
        let all = self.values().into_iter();
        let ret = all.enumerate().filter(|&(_, v)| v != self.padding());
        ret.collect()
    }

    fn pad_indexs(&self) -> BTreeSet<usize> {
        let all_indexs = BTreeSet::from_iter(0..self.len());
        &all_indexs - &self.npad_indexs()
    }

    fn npad_indexs(&self) -> BTreeSet<usize> {
        let rng = &mut Pcg32::seed_from_u64(self.seed);
        let ret = rand_sample(rng, self.len(), self.nnp());
        ret.iter().collect::<BTreeSet<_>>()
    }

    fn some_indexs(&self) -> Vec<usize> {
        let mut ret = Vec::new();
        let head_index = 0;
        let tail_index = self.len() - 1;
        let has_value = self.nnp() > 0;
        let has_padding = self.len() - self.nnp() > 0;
        ret.extend([head_index, tail_index]);
        if has_value {
            ret.push(self.some_npad_indexs(1)[0]);
        }
        if has_padding {
            ret.push(self.some_pad_indexs(1)[0]);
        }
        ret
    }

    fn some_pad_indexs(&self, n: usize) -> Vec<usize> {
        assert!(n < self.len() - self.nnp());
        let mut ret = Vec::new();
        let indexs = self.pad_indexs();
        let indexs = &mut indexs.iter();
        for step in step_diffs(self.len() - self.nnp(), n) {
            ret.push(*indexs.nth(step).unwrap());
        }
        ret
    }

    fn some_npad_indexs(&self, n: usize) -> Vec<usize> {
        assert!(n < self.nnp());
        let mut ret = Vec::new();
        let indexs = self.npad_indexs();
        let indexs = &mut indexs.iter();
        for step in step_diffs(self.nnp(), n) {
            ret.push(*indexs.nth(step).unwrap());
        }
        ret
    }
}

#[derive(Default)]
struct SparseVecBuilder {
    vb: ValuesBuilder,
}

impl SparseVecBuilder {
    fn new() -> Self {
        Self::default()
    }

    fn len(&self) -> usize {
        self.vb.len()
    }

    fn nnp(&self) -> usize {
        self.vb.nnp()
    }

    fn padding(&self) -> i32 {
        self.vb.padding()
    }

    fn none_padding(&self) -> i32 {
        self.vb.none_padding()
    }

    fn set_seed(mut self, value: u64) -> Self {
        self.vb.seed = value;
        self
    }

    fn set_len(mut self, value: usize) -> Self {
        self.vb.len = Some(value);
        self
    }

    fn set_nnp(mut self, value: usize) -> Self {
        self.vb.nnp = Some(value);
        self
    }

    fn set_padding(mut self, value: i32) -> Self {
        self.vb.padding = Some(value);
        self
    }

    fn set_value_range(mut self, value: RangeInclusive<i32>) -> Self {
        self.vb.value_range = Some(value);
        self
    }

    fn build(&self) -> SparseVec {
        let mut ret = SparseVec::with_padding(0, self.vb.padding());
        ret.extend(&self.values());
        ret
    }

    fn values(&self) -> Vec<i32> {
        self.vb.values()
    }

    fn elms(&self) -> Vec<(usize, i32)> {
        self.vb.elms()
    }

    fn some_indexs(&self) -> Vec<usize> {
        self.vb.some_indexs()
    }

    fn npad_indexs(&self) -> BTreeSet<usize> {
        self.vb.npad_indexs()
    }

    fn some_pad_indexs(&self, n: usize) -> Vec<usize> {
        self.vb.some_pad_indexs(n)
    }

    fn some_npad_indexs(&self, n: usize) -> Vec<usize> {
        self.vb.some_npad_indexs(n)
    }
}

struct SliceContext {
    vec: SparseVec,
    range: Range<usize>,
}

impl SliceContext {
    fn new(vec: SparseVec, range: Range<usize>) -> Self {
        Self { vec, range }
    }

    fn vec(&self) -> &SparseVec {
        &self.vec
    }

    fn fetch(&self) -> SparseSlice<'_> {
        self.vec.slice(self.range.clone())
    }

    fn fetch_mut(&mut self) -> SparseSliceMut<'_> {
        self.vec.slice_mut(self.range.clone())
    }
}

struct SparseSliceBuilder {
    vb: ValuesBuilder,
    epilogue: Vec<i32>,
    prologue: Vec<i32>,
}

impl SparseSliceBuilder {
    fn new() -> Self {
        Self { vb: Default::default(), epilogue: vec![42, 42, 42], prologue: vec![42, 42, 42] }
    }

    fn padding(&self) -> i32 {
        self.vb.padding()
    }

    fn none_padding(&self) -> i32 {
        self.vb.none_padding()
    }

    fn set_len(mut self, value: usize) -> Self {
        self.vb.len = Some(value);
        self
    }

    fn range(&self) -> Range<usize> {
        let len = self.vb.len();
        self.epilogue.len()..(self.epilogue.len() + len)
    }

    fn build(&self) -> SliceContext {
        let mut vec = SparseVec::with_padding(0, self.vb.padding());
        vec.extend(&self.vec_values());
        SliceContext::new(vec, self.range())
    }

    fn slice_values(&self) -> Vec<i32> {
        self.vb.values()
    }

    fn vec_values(&self) -> Vec<i32> {
        [self.epilogue.clone(), self.slice_values(), self.prologue.clone()].concat()
    }

    fn nnp(&self) -> usize {
        self.vb.nnp()
    }

    fn npad_indexs(&self) -> BTreeSet<usize> {
        self.vb.npad_indexs()
    }

    fn some_pad_indexs(&self, n: usize) -> Vec<usize> {
        self.vb.some_pad_indexs(n)
    }

    fn some_npad_indexs(&self, n: usize) -> Vec<usize> {
        self.vb.some_npad_indexs(n)
    }
}

fn set_at(vec: &mut SparseVec, index: usize, value: i32) {
    let mut editor = vec.edit(index);
    *editor.deref_mut() = value;
    editor.commit();
}

fn add_at(vec: &mut SparseVec, index: usize, value: i32) {
    let mut editor = vec.edit(index);
    *editor.deref_mut() += value;
    editor.commit();
}

fn sample_default() -> SparseVec {
    SparseVec::default()
}

fn sample_normal() -> SparseVec {
    SparseVecBuilder::new().build()
}

fn sample_single() -> SparseVec {
    SparseVecBuilder::new().set_len(1).set_nnp(1).build()
}

fn sample_all_padding() -> SparseVec {
    SparseVecBuilder::new().set_nnp(0).build()
}

fn sample_random_trivals(seed: u64) -> SparseVec {
    SparseVecBuilder::new().set_seed(seed).set_value_range(-1..=1).build()
}

fn sample_pairs() -> Vec<[SparseVec; 2]> {
    let mut ret = Vec::new();
    ret.push([sample_default(), sample_default()]);
    ret.push([sample_single(), sample_single()]);
    ret.push([sample_normal(), sample_normal()]);
    {
        let builder = SparseVecBuilder::new();
        let target_x = builder.build();
        let mut target_y = builder.build();
        let index = builder.some_pad_indexs(1)[0];
        add_at(&mut target_y, index, 1);
        ret.push([target_x, target_y]);
    }
    {
        let builder = SparseVecBuilder::new();
        let target_x = builder.build();
        let mut target_y = builder.build();
        let index = builder.some_npad_indexs(1)[0];
        add_at(&mut target_y, index, 1);
        ret.push([target_x, target_y]);
    }
    {
        let mut target_x = SparseVec::with_padding(0, 0);
        let mut target_y = SparseVec::with_padding(0, 1);
        target_x.extend(&[0, 1, 0]);
        target_y.extend(&[0, 1, 0]);
        ret.push([target_x, target_y]);
    }
    {
        let target_x = sample_normal();
        let mut target_y = sample_normal();
        target_y.set_len(target_y.len() + 1);
        ret.push([target_x, target_y]);
    }
    {
        let target_x = sample_normal();
        let mut target_y = sample_normal();
        target_y.extend(&[42]);
        ret.push([target_x, target_y]);
    }
    for seed in 0..RANDOM_TEST_SIZE as u64 {
        ret.push([sample_random_trivals(seed), sample_random_trivals(seed + 1)]);
    }
    ret
}

fn to_slice_context(mut src: SparseVec, rng: &mut Pcg32) -> SliceContext {
    let prologue = rand_values(rng, SIDE_VAL_RANGE, SIDE_LEN);
    let epilogue = rand_values(rng, SIDE_VAL_RANGE, SIDE_LEN);
    let range = prologue.len()..(prologue.len() + src.len());
    src.splice(0..0, prologue).commit();
    src.extend(&epilogue);
    SliceContext::new(src, range)
}

fn slice_sample_empty() -> SliceContext {
    SparseSliceBuilder::new().set_len(0).build()
}

fn slice_sample_normal() -> SliceContext {
    SparseSliceBuilder::new().build()
}

fn slice_sample_pairs() -> Vec<[SliceContext; 2]> {
    let mut rng = Pcg32::seed_from_u64(0);
    let mut ret = Vec::new();
    for [vec_x, vec_y] in sample_pairs() {
        let sctx_x = to_slice_context(vec_x, &mut rng);
        let sctx_y = to_slice_context(vec_y, &mut rng);
        ret.push([sctx_x, sctx_y]);
    }
    ret
}

fn range_empty(len: usize) -> Range<usize> {
    (len / 2)..(len / 2)
}

fn range_normal(len: usize) -> Range<usize> {
    let div = len as f32 / 3.0;
    let min = div.round() as usize;
    let max = (div * 2.0).round() as usize;
    min..((max + 1).min(len))
}

fn range_with_len(len: usize, range_len: usize) -> Range<usize> {
    assert!(range_len <= len);
    let side_len = (len - range_len) / 2;
    side_len..(side_len + range_len)
}

fn values_normal(len: usize) -> Vec<i32> {
    let mut builder = ValuesBuilder::new();
    builder.len = Some(len);
    builder.values()
}

fn drain_iter(iter: &mut Iter<'_>) -> Vec<i32> {
    let mut ret = Vec::new();
    while let Some(value) = iter.next() {
        ret.push(*value);
    }
    ret
}

fn drain_iter_back(iter: &mut Iter<'_>) -> Vec<i32> {
    let mut ret = Vec::new();
    while let Some(value) = iter.next_back() {
        ret.push(*value);
    }
    ret
}

fn drain_reader(reader: &mut SparseReader<'_>) -> Vec<(usize, i32)> {
    let mut ret = Vec::new();
    while let Some(elm) = reader.next() {
        ret.push((elm.index(), *elm.value()));
    }
    ret
}

fn drain_reader_back(reader: &mut SparseReader<'_>) -> Vec<(usize, i32)> {
    let mut ret = Vec::new();
    while let Some(elm) = reader.next_back() {
        ret.push((elm.index(), *elm.value()));
    }
    ret
}

fn reader_nth<'a>(reader: &mut SparseReader<'a>, n: usize) -> Option<ElmReader<'a>> {
    for _ in 0..n {
        reader.next()?;
    }
    reader.next()
}

fn reader_nth_back<'a>(reader: &mut SparseReader<'a>, n: usize) -> Option<ElmReader<'a>> {
    for _ in 0..n {
        reader.next_back()?;
    }
    reader.next_back()
}

fn drain_writer(writer: &mut SparseWriter<'_>) -> Vec<(usize, i32)> {
    let mut ret = Vec::new();
    while let Some(elm) = writer.next() {
        ret.push((elm.index(), *elm.value()));
    }
    ret
}

fn drain_into_iter(iter: &mut IntoIter) -> Vec<i32> {
    let mut ret = Vec::new();
    while let Some(value) = iter.next() {
        ret.push(value);
    }
    ret
}

fn drain_splice(splice: &mut Splice<'_>) -> Vec<i32> {
    let mut ret = Vec::new();
    while let Some(value) = splice.next() {
        ret.push(value);
    }
    ret
}

/// The stored entries of `vec`: none of them may hold the padding.
fn assert_normalized(vec: &SparseVec) {
    let stored = drain_reader(&mut vec.sparse_reader());
    assert_eq!(stored.len(), vec.nnp());
    for (index, value) in stored {
        assert_ne!(value, *vec.padding());
        assert_eq!(value, *vec.index(index));
    }
    let dense = vec.to_vec();
    let count = dense.iter().filter(|x| **x != *vec.padding()).count();
    assert_eq!(count, vec.nnp());
}

fn iter_nth<'a>(iter: &mut Iter<'a>, n: usize) -> Option<&'a i32> {
    for _ in 0..n {
        iter.next()?;
    }
    iter.next()
}

fn iter_nth_back<'a>(iter: &mut Iter<'a>, n: usize) -> Option<&'a i32> {
    for _ in 0..n {
        iter.next_back()?;
    }
    iter.next_back()
}

fn into_iter_nth(iter: &mut IntoIter, n: usize) -> Option<i32> {
    for _ in 0..n {
        iter.next()?;
    }
    iter.next()
}

fn into_iter_nth_back(iter: &mut IntoIter, n: usize) -> Option<i32> {
    for _ in 0..n {
        iter.next_back()?;
    }
    iter.next_back()
}

fn range_for_empty(len: usize) -> Range<usize> {
    (len / 2)..(len / 2)
}

fn range_for_normal(len: usize) -> Range<usize> {
    let start = (len as f32 * 1.0 / 3.0).round();
    let range_len = (len as f32 / 3.0).round();
    (start as usize)..((start + range_len) as usize)
}

fn range_for_include(len: usize, index: usize) -> Range<usize> {
    let self_len = len as f32;
    let range_len = (self_len / 3.0).round();
    let bgn = (index as f32 - range_len / 2.0).round();
    let end = (index as f32 - range_len / 2.0).round() + range_len;
    let bgn_ob = f32::max(0.0, 0.0 - bgn);
    let end_ob = f32::max(0.0, end - self_len);
    let start = bgn + bgn_ob - end_ob;
    (start as usize)..((start + range_len) as usize)
}

fn splice_nth(splice: &mut Splice<'_>, n: usize) -> Option<i32> {
    for _ in 0..n {
        splice.next()?;
    }
    splice.next()
}

fn splice_nth_back(splice: &mut Splice<'_>, n: usize) -> Option<i32> {
    for _ in 0..n {
        splice.next_back()?;
    }
    splice.next_back()
}

fn some_other_of(values: &[i32]) -> i32 {
    let mut val = 0;
    while values.contains(&val) {
        val += 1;
    }
    val
}

const PERMUTATIONS: [[usize; 3]; 6] =
    [[5, 10, 15], [5, 15, 10], [10, 5, 15], [10, 15, 5], [15, 5, 10], [15, 10, 5]];

#[test]
fn splice_drop() {
    // Every removed element was handed out.
    let builder = SparseVecBuilder::new();
    let vec = &mut builder.build();
    let range = range_for_include(builder.len(), builder.some_npad_indexs(1)[0]);
    let inserts = values_normal(range.len() / 2);
    let mut target = vec.splice(range.clone(), inserts.clone());
    let removed = drain_splice(&mut target);
    target.commit();
    let rhs = &mut builder.values();
    let expected: Vec<i32> = rhs.splice(range.clone(), inserts.clone()).collect();
    assert_eq!(removed, expected);
    assert_eq!(&vec.to_vec(), rhs);
    assert_normalized(vec);

    // No removed element was handed out.
    let builder = SparseVecBuilder::new();
    let vec = &mut builder.build();
    let range = range_for_include(builder.len(), builder.some_npad_indexs(1)[0]);
    let inserts = values_normal(range.len() / 2);
    let target = vec.splice(range.clone(), inserts.clone());
    target.commit();
    let rhs = &mut builder.values();
    rhs.splice(range.clone(), inserts.clone());
    assert_eq!(&vec.to_vec(), rhs);
    assert_normalized(vec);
}

#[test]
fn splice_next_back() {
    let vec = &mut sample_normal();
    let range = range_for_empty(vec.len());
    let inserts = values_normal(range.len() / 2);
    let target = &mut vec.splice(range.clone(), inserts.clone());
    assert_eq!(target.next_back(), None);

    let vec = &mut sample_normal();
    let range = range_for_normal(vec.len());
    let inserts = values_normal(range.len() / 2);
    let target = &mut vec.splice(range.clone(), inserts.clone());
    splice_nth_back(target, range.len() - 1);
    assert_eq!(target.next_back(), None);

    let builder = SparseVecBuilder::new();
    let vec = &mut builder.build();
    let range = range_for_normal(vec.len());
    let inserts = values_normal(range.len() / 2);
    let target = &mut vec.splice(range.clone(), inserts.clone());
    let index = range.len() / 2;
    splice_nth_back(target, range.len() - index - 1);
    assert_eq!(target.next_back(), Some(builder.values()[range.start + index]));
}

#[test]
fn splice_next() {
    let vec = &mut sample_normal();
    let range = range_for_empty(vec.len());
    let inserts = values_normal(range.len() / 2);
    let target = &mut vec.splice(range.clone(), inserts.clone());
    assert_eq!(target.next(), None);

    let vec = &mut sample_normal();
    let range = range_for_normal(vec.len());
    let inserts = values_normal(range.len() / 2);
    let target = &mut vec.splice(range.clone(), inserts.clone());
    splice_nth(target, range.len() - 1);
    assert_eq!(target.next(), None);

    let builder = SparseVecBuilder::new();
    let vec = &mut builder.build();
    let range = range_for_normal(vec.len());
    let inserts = values_normal(range.len() / 2);
    let target = &mut vec.splice(range.clone(), inserts.clone());
    let index = range.len() / 2;
    splice_nth(target, index - 1);
    assert_eq!(target.next(), Some(builder.values()[range.start + index]));
}

#[test]
fn splice_size_hint() {
    let vec = &mut sample_normal();
    let range = range_for_normal(vec.len());
    let inserts = values_normal(range.len() / 2);
    let target = &mut vec.splice(range.clone(), inserts.clone());
    assert_eq!(target.size_hint(), (range.len(), Some(range.len())));
}

#[test]
fn splice_partly_handed_out() {
    for seed in 0..RANDOM_TEST_SIZE as u64 {
        let builder = SparseVecBuilder::new().set_seed(seed).set_value_range(-1..=1);
        for news_len in [0usize, 2, 5, 9] {
            let vec = &mut builder.build();
            let range = range_normal(vec.len());
            let inserts = values_normal(news_len);
            let mut target = vec.splice(range.clone(), inserts.clone());
            let first = target.next();
            let last = target.next_back();
            target.commit();

            let rhs = &mut builder.values();
            let removed: Vec<i32> = rhs.splice(range.clone(), inserts.clone()).collect();
            assert_eq!(first, removed.first().copied());
            assert_eq!(last, removed.last().copied());
            assert_eq!(&vec.to_vec(), rhs);
            assert_eq!(vec.len(), builder.len() - range.len() + news_len);
            assert_normalized(vec);
        }
    }
}

#[test]
fn splice_without_commit() {
    let mut v = SparseVec::from(vec![1, 2, 3, 4, 5]);
    let mut target = v.splice(1..3, vec![42, 43, 44]);
    assert_eq!(target.next(), Some(2));
    // The splice is given up: what was handed out is padding, nothing else changed.
    let _ = target;
    assert_eq!(v.to_vec(), vec![1, 0, 3, 4, 5]);
}

#[test]
fn splice_grows_and_shrinks() {
    let mut v = SparseVec::from(vec![1, 2, 3, 4, 5]);
    v.splice(1..3, vec![42, 43, 44]).commit();
    assert_eq!(v.to_vec(), vec![1, 42, 43, 44, 4, 5]);

    v.splice(0..5, vec![0]).commit();
    assert_eq!(v.to_vec(), vec![0, 5]);
    assert_eq!(v.nnp(), 1);

    v.splice(2..2, vec![7, 0, 8]).commit();
    assert_eq!(v.to_vec(), vec![0, 5, 7, 0, 8]);
    assert_eq!(v.nnp(), 3);

    v.splice(0..5, vec![]).commit();
    assert_eq!(v.to_vec(), vec![]);
    assert_eq!(v.nnp(), 0);
}
