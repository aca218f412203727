use chess::{Error, File, Rank, Square, ALL_FILES, ALL_RANKS, ALL_SQUARES, NUM_SQUARES};

#[test]
fn test_square() {
    for file in (0..8).map(File::new) {
        for rank in (0..8).map(Rank::new) {
            let square = Square::make_square(file, rank);
            assert_eq!(square.file(), file);
            assert_eq!(square.rank(), rank);
        }
    }
}

#[test]
fn square_index_is_row_major_from_a1() {
    assert_eq!(Square::new(0), Square::A1);
    assert_eq!(Square::new(7), Square::H1);
    assert_eq!(Square::new(8), Square::A2);
    assert_eq!(Square::new(63), Square::H8);
    assert_eq!(Square::E4.to_index(), 28);
    for (i, square) in ALL_SQUARES.iter().enumerate() {
        assert_eq!(square.to_index(), i);
        assert_eq!(Square::new(i), *square);
    }
    assert_eq!(NUM_SQUARES, 64);
}

#[test]
fn square_new_wraps_around() {
    assert_eq!(Square::new(64), Square::A1);
    assert_eq!(Square::new(64 + 28), Square::E4);
}

#[test]
fn make_square_takes_file_then_rank() {
    assert_eq!(Square::make_square(File::A, Rank::First), Square::A1);
    assert_eq!(Square::make_square(File::D, Rank::Seventh), Square::D7);
    assert_eq!(Square::make_square(File::H, Rank::Eighth), Square::H8);
    assert_eq!(Square::D7.file(), File::D);
    assert_eq!(Square::D7.rank(), Rank::Seventh);
}

#[test]
fn square_names() {
    assert_eq!(Square::A1.to_string(), "a1");
    assert_eq!(Square::E4.to_string(), "e4");
    assert_eq!(Square::H8.to_string(), "h8");
}

#[test]
fn square_name_round_trip() {
    for square in ALL_SQUARES {
        assert_eq!(Square::from_str(&square.to_string()), Ok(square));
    }
}

#[test]
fn square_from_str_reads_either_case_of_the_file() {
    assert_eq!(Square::from_str("e4"), Ok(Square::E4));
    assert_eq!(Square::from_str("E4"), Ok(Square::E4));
    assert_eq!(Square::from_str("h1"), Ok(Square::H1));
}

#[test]
fn square_from_str_reads_two_characters_only() {
    assert_eq!(Square::from_str("e4xyz"), Ok(Square::E4));
}

#[test]
fn square_from_str_refuses_what_names_no_square() {
    assert_eq!(Square::from_str(""), Err(Error::InvalidSquare));
    assert_eq!(Square::from_str("e"), Err(Error::InvalidSquare));
    assert_eq!(Square::from_str("-"), Err(Error::InvalidSquare));
    assert_eq!(Square::from_str("i4"), Err(Error::InvalidSquare));
    assert_eq!(Square::from_str("e9"), Err(Error::InvalidSquare));
    assert_eq!(Square::from_str("e0"), Err(Error::InvalidSquare));
    assert_eq!(Square::from_str("4e"), Err(Error::InvalidSquare));
    assert_eq!(Square::from_str("é4"), Err(Error::InvalidSquare));
}

#[test]
fn square_offset_stays_on_the_board() {
    assert_eq!(Square::E4.offset(1, 2), Some(Square::F6));
    assert_eq!(Square::E4.offset(-4, -3), Some(Square::A1));
    assert_eq!(Square::E4.offset(0, 0), Some(Square::E4));
    assert_eq!(Square::A1.offset(-1, 0), None);
    assert_eq!(Square::A1.offset(0, -1), None);
    assert_eq!(Square::H8.offset(1, 0), None);
    assert_eq!(Square::H8.offset(0, 1), None);
    assert_eq!(Square::H4.offset(1, 0), None);
}

#[test]
fn file_index_and_wrap_around() {
    for (i, file) in ALL_FILES.iter().enumerate() {
        assert_eq!(file.to_index(), i);
        assert_eq!(File::new(i), *file);
        assert_eq!(File::new(i + 8), *file);
    }
    assert_eq!(File::new(9), File::B);
    assert_eq!(File::A.left(), File::H);
    assert_eq!(File::H.right(), File::A);
    assert_eq!(File::D.left(), File::C);
    assert_eq!(File::D.right(), File::E);
}

#[test]
fn rank_index_and_wrap_around() {
    for (i, rank) in ALL_RANKS.iter().enumerate() {
        assert_eq!(rank.to_index(), i);
        assert_eq!(Rank::new(i), *rank);
        assert_eq!(Rank::new(i + 16), *rank);
    }
    assert_eq!(Rank::First.down(), Rank::Eighth);
    assert_eq!(Rank::Eighth.up(), Rank::First);
    assert_eq!(Rank::Fourth.down(), Rank::Third);
    assert_eq!(Rank::Fourth.up(), Rank::Fifth);
}

#[test]
fn file_from_str() {
    assert_eq!(File::from_str("a"), Ok(File::A));
    assert_eq!(File::from_str("H"), Ok(File::H));
    assert_eq!(File::from_str("c7"), Ok(File::C));
    assert_eq!(File::from_str(""), Err(Error::InvalidFile));
    assert_eq!(File::from_str("i"), Err(Error::InvalidFile));
    assert_eq!(File::from_str("1"), Err(Error::InvalidFile));
}

#[test]
fn rank_from_str() {
    assert_eq!(Rank::from_str("1"), Ok(Rank::First));
    assert_eq!(Rank::from_str("8"), Ok(Rank::Eighth));
    assert_eq!(Rank::from_str("45"), Ok(Rank::Fourth));
    assert_eq!(Rank::from_str(""), Err(Error::InvalidRank));
    assert_eq!(Rank::from_str("0"), Err(Error::InvalidRank));
    assert_eq!(Rank::from_str("9"), Err(Error::InvalidRank));
    assert_eq!(Rank::from_str("a"), Err(Error::InvalidRank));
}

#[test]
fn file_and_rank_characters() {
    assert_eq!(File::A.to_char(), 'a');
    assert_eq!(File::H.to_char(), 'h');
    assert_eq!(Rank::First.to_char(), '1');
    assert_eq!(Rank::Eighth.to_char(), '8');
    assert_eq!(File::from_char('E'), Some(File::E));
    assert_eq!(File::from_char('z'), None);
    assert_eq!(Rank::from_char('3'), Some(Rank::Third));
    assert_eq!(Rank::from_char('0'), None);
}
