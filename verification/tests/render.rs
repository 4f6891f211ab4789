use tictactoe::board::Board;
use tictactoe::cell::{Cell, Mark};

const X: Cell = Cell::Occupied(Mark::X);
const O: Cell = Cell::Occupied(Mark::O);

#[test]
fn empty_board_of_side_three() {
    let board = Board::new(None);
    assert_eq!(
        board.render(),
        vec!["  1 2 3 ", "1  | | ", "  -----", "2  | | ", "  -----", "3  | | "]
    );
}

#[test]
fn board_with_marks() {
    let mut board = Board::new(Some(3));
    board.set_cell((1, 1), X);
    board.set_cell((2, 2), O);
    board.set_cell((1, 3), X);
    board.set_cell((3, 1), O);
    assert_eq!(
        board.render(),
        vec!["  1 2 3 ", "1 X| |X", "  -----", "2  |O| ", "  -----", "3 O| | "]
    );
}

#[test]
fn full_board() {
    let mut board = Board::new(Some(2));
    board.set_cell((1, 1), X);
    board.set_cell((1, 2), O);
    board.set_cell((2, 1), O);
    board.set_cell((2, 2), X);
    assert_eq!(board.render(), vec!["  1 2 ", "1 X|O", "  ---", "2 O|X"]);
}

#[test]
fn board_of_one_cell() {
    let mut board = Board::new(Some(1));
    assert_eq!(board.render(), vec!["  1 ", "1  "]);
    board.set_cell((1, 1), O);
    assert_eq!(board.render(), vec!["  1 ", "1 O"]);
}

#[test]
fn board_of_side_four() {
    let mut board = Board::new(Some(4));
    board.set_cell((4, 4), X);
    assert_eq!(
        board.render(),
        vec![
            "  1 2 3 4 ",
            "1  | | | ",
            "  -------",
            "2  | | | ",
            "  -------",
            "3  | | | ",
            "  -------",
            "4  | | |X",
        ]
    );
}

#[test]
fn numbers_of_two_digits() {
    let mut board = Board::new(Some(12));
    board.set_cell((10, 12), X);
    board.set_cell((12, 1), O);
    let lines = board.render();
    assert_eq!(lines.len(), 24);
    assert_eq!(lines[0], "  1 2 3 4 5 6 7 8 9 10 11 12 ");
    assert_eq!(lines[1], "1  | | | | | | | | | | | ");
    assert_eq!(lines[2], "  -----------------------");
    assert_eq!(lines[17], "9  | | | | | | | | | | | ");
    assert_eq!(lines[19], "10  | | | | | | | | | | |X");
    assert_eq!(lines[20], "  -----------------------");
    assert_eq!(lines[21], "11  | | | | | | | | | | | ");
    assert_eq!(lines[23], "12 O| | | | | | | | | | | ");
}

#[test]
fn numbers_of_three_digits() {
    let board = Board::new(Some(255));
    let lines = board.render();
    assert_eq!(lines.len(), 510);
    let mut header = String::from("  ");
    for i in 1..=255 {
        header.push_str(&format!("{} ", i));
    }
    assert_eq!(lines[0], header);
    assert!(lines[0].ends_with("99 100 101 102 103 104 105 106 107 108 109 110 111 112 113 114 115 116 117 118 119 120 121 122 123 124 125 126 127 128 129 130 131 132 133 134 135 136 137 138 139 140 141 142 143 144 145 146 147 148 149 150 151 152 153 154 155 156 157 158 159 160 161 162 163 164 165 166 167 168 169 170 171 172 173 174 175 176 177 178 179 180 181 182 183 184 185 186 187 188 189 190 191 192 193 194 195 196 197 198 199 200 201 202 203 204 205 206 207 208 209 210 211 212 213 214 215 216 217 218 219 220 221 222 223 224 225 226 227 228 229 230 231 232 233 234 235 236 237 238 239 240 241 242 243 244 245 246 247 248 249 250 251 252 253 254 255 "));
    for r in 1..=255usize {
        assert_eq!(lines[2 * r - 1], format!("{} {}", r, vec![" "; 255].join("|")));
    }
    for r in 1..255usize {
        assert_eq!(lines[2 * r], format!("  {}", "-".repeat(509)));
    }
}

#[test]
fn render_leaves_the_board_alone() {
    let mut board = Board::new(Some(3));
    board.set_cell((2, 3), X);
    let first = board.render();
    let second = board.render();
    assert_eq!(first, second);
    assert_eq!(board.get_cell((2, 3)), Some(X));
}
