use qkd::utils::rand_bool;
use qkd::utils::rand_choose;
use qkd::utils::suffle_and_split;

#[test]
fn chosen_element_comes_from_the_vector() {
    for _ in 0..200 {
        let chosen = rand_choose(vec![3usize, 5, 8]);
        assert!(chosen == 3 || chosen == 5 || chosen == 8);
    }
}

#[test]
fn single_element_is_always_chosen() {
    assert_eq!(rand_choose(vec!["only"]), "only");
}

#[test]
fn every_element_is_chosen_sooner_or_later() {
    let mut seen = [false; 4];
    for _ in 0..2000 {
        seen[rand_choose(vec![0usize, 1, 2, 3])] = true;
    }
    assert_eq!(seen, [true; 4]);
}

#[test]
fn both_booleans_are_drawn() {
    let mut seen_true = false;
    let mut seen_false = false;
    for _ in 0..500 {
        if rand_bool() {
            seen_true = true;
        } else {
            seen_false = true;
        }
    }
    assert!(seen_true && seen_false);
}

#[test]
fn split_of_an_even_vector_gives_equal_halves() {
    let (first, second) = suffle_and_split(vec![1, 2, 3, 4, 5, 6]);
    assert_eq!(first.len(), 3);
    assert_eq!(second.len(), 3);
}

#[test]
fn split_of_an_odd_vector_gives_the_second_half_one_more() {
    let (first, second) = suffle_and_split(vec![1, 2, 3, 4, 5, 6, 7]);
    assert_eq!(first.len(), 3);
    assert_eq!(second.len(), 4);
}

#[test]
fn split_of_small_vectors() {
    let (first, second) = suffle_and_split(Vec::<u8>::new());
    assert!(first.is_empty() && second.is_empty());
    let (first, second) = suffle_and_split(vec![9u8]);
    assert!(first.is_empty());
    assert_eq!(second, vec![9u8]);
}

#[test]
fn split_keeps_every_element_as_often_as_it_came() {
    let input = vec![4, 1, 4, 7, 7, 7, 0, 2, 9];
    let (first, second) = suffle_and_split(input.clone());
    let mut together = first;
    together.extend(second);
    together.sort();
    let mut expected = input;
    expected.sort();
    assert_eq!(together, expected);
}

#[test]
fn split_reorders_the_elements() {
    let input: Vec<usize> = (0..100).collect();
    let mut reordered = false;
    for _ in 0..20 {
        let (first, second) = suffle_and_split(input.clone());
        let mut together = first;
        together.extend(second);
        if together != input {
            reordered = true;
        }
    }
    assert!(reordered);
}
